use std::cell::RefCell;
use std::rc::Rc;

use actions_core::{Core, Environment, Log, Sink, VarTable};

#[derive(Clone)]
struct TestBuf {
    inner: Rc<RefCell<Vec<u8>>>,
}

impl TestBuf {
    fn new() -> Self {
        Self { inner: Rc::new(RefCell::new(Vec::new())) }
    }

    fn clear(&self) {
        self.inner.borrow_mut().clear();
    }

    fn to_string(&self) -> String {
        String::from_utf8(self.inner.borrow().to_vec()).unwrap()
    }
}

impl Sink for TestBuf {
    fn write_str(&mut self, s: &str) -> Result<(), std::io::Error> {
        self.inner.borrow_mut().extend_from_slice(s.as_bytes());
        Ok(())
    }
}

fn fresh() -> Core<String, VarTable> {
    Core::new(String::new(), VarTable::new(':'))
}

fn test<F>(expected: &str, f: F)
where
    F: FnOnce(&mut Core<String, VarTable>) -> std::io::Result<()>,
{
    let mut core = fresh();
    f(&mut core).unwrap();
    assert_eq!(core.out, expected);
}

#[test]
fn set_output() {
    test("::set-output name=greeting::hello\n", |core| core.set_output("greeting", "hello"));
}

#[test]
fn export_variable() {
    let mut core = fresh();
    core.export_variable("greeting", "hello").unwrap();
    assert_eq!(core.out, "::set-env name=greeting::hello\n");
    assert_eq!(core.env.var("greeting").unwrap().as_str(), "hello");
}

#[test]
fn set_secret() {
    test("::add-mask::super secret message\n", |core| core.set_secret("super secret message"));
}

#[test]
fn add_path() {
    let mut core = fresh();
    core.add_path("/this/is/a/test").unwrap();
    assert_eq!(core.out, "::add-path::/this/is/a/test\n");
    let path = core.env.var("PATH").unwrap();
    let last_path = path.split(':').last().unwrap();
    assert_eq!(last_path, "/this/is/a/test");
}

#[test]
fn save_state() {
    test("::save-state name=greeting::hello\n", |core| core.save_state("greeting", "hello"));
}

#[test]
fn stop_logging() {
    let buf = TestBuf::new();
    let mut core = Core::new(buf.clone(), VarTable::new(':'));
    let mut token = String::new();

    core.stop_logging(|| {
        let output = buf.to_string();

        assert!(output.starts_with("::stop-commands::"));

        token = output.trim().split("::").last().unwrap().to_string();
        buf.clear();
    })
    .unwrap();

    assert_eq!(buf.to_string(), format!("::{}::\n", token));
}

#[test]
fn test_debug() {
    test("::debug::Hello, World!\n", |core| core.debug("Hello, World!"));
}

#[test]
fn test_error_complex() {
    test("::error file=/test/file.rs,line=5,col=10::hello\n", |core| {
        core.log_error(Log {
            message: "hello".to_string(),
            file: Some("/test/file.rs".to_string()),
            line: Some(5),
            col: Some(10),
        })
    });
}

#[test]
fn test_warning_omit() {
    test("::warning::hello\n", |core| {
        core.log_warning(Log { message: "hello".to_string(), ..Default::default() })
    });
}
