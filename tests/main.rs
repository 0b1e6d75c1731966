use exn::Compact;
use exn::Exn;
use exn::Location;
use exn::OptionExt;
use exn::ResultExt;

struct TestError(&'static str);

impl exn::Error for TestError {
    fn text(&self) -> vstd::seq::Seq<char> {
        unreachable!()
    }

    fn cause_texts(&self) -> vstd::seq::Seq<vstd::seq::Seq<char>> {
        unreachable!()
    }

    fn message(&self) -> String {
        self.0.to_string()
    }

    fn causes(&self) -> Vec<String> {
        Vec::new()
    }
}

struct ErrorWithSource(&'static str, &'static str);

impl exn::Error for ErrorWithSource {
    fn text(&self) -> vstd::seq::Seq<char> {
        unreachable!()
    }

    fn cause_texts(&self) -> vstd::seq::Seq<vstd::seq::Seq<char>> {
        unreachable!()
    }

    fn message(&self) -> String {
        self.0.to_string()
    }

    fn causes(&self) -> Vec<String> {
        vec![self.1.to_string()]
    }
}

fn at(line: u32) -> Location {
    Location::new("tests/main.rs", line, 9)
}

fn new_linear_error() -> Exn<TestError> {
    let e1 = Exn::new(TestError("E1"), at(1));
    let e2 = e1.raise(TestError("E2"), at(2));
    let e3 = e2.raise(TestError("E3"), at(3));
    let e4 = e3.raise(TestError("E4"), at(4));
    e4.raise(TestError("E5"), at(5))
}

fn new_tree_error() -> Exn<TestError> {
    let e1 = Exn::new(TestError("E1"), at(1));
    let e3 = e1.raise(TestError("E3"), at(3));

    let e9 = Exn::new(TestError("E9"), at(9));
    let e10 = e9.raise(TestError("E10"), at(10));

    let e11 = Exn::new(TestError("E11"), at(11));
    let e12 = e11.raise(TestError("E12"), at(12));

    let e5 = Exn::raise_all(TestError("E5"), vec![e3, e10, e12], at(5));

    let e2 = Exn::new(TestError("E2"), at(2));
    let e4 = e2.raise(TestError("E4"), at(4));

    let e7 = Exn::new(TestError("E7"), at(7));
    let e8 = e7.raise(TestError("E8"), at(8));

    Exn::raise_all(TestError("E6"), vec![e5, e4, e8], at(6))
}

#[test]
fn test_simple_error() {
    let mut report = Exn::new(TestError("An error occurred"), at(1));
    report.suppress(Exn::new(TestError("Another error"), at(2)));
    let mut report = report.raise(TestError("Because of me"), at(3));
    report.suppress(Exn::new(TestError("Oops"), at(4)));
    let report = report.attach("Hello");
    let report = report.raise(TestError("Because of you"), at(5));

    assert_eq!(
        report.to_debug_string(),
        "Because of you, at tests/main.rs:5:9\n|\n|-> Because of me, at tests/main.rs:3:9\n    |\n    |-> An error occurred, at tests/main.rs:1:9\n    |   |\n    |   |-> Another error, at tests/main.rs:2:9\n    |\n    |-> Oops, at tests/main.rs:4:9"
    );
    let child = &report.frame().children()[0];
    assert_eq!(child.contexts.len(), 1);
    assert_eq!(child.contexts[0].value.downcast_ref::<&str>(), Some(&"Hello"));
}

#[test]
fn linear_error() {
    let e = new_linear_error().raise(TestError("topmost"), at(20));
    assert_eq!(e.to_display_string(), "topmost");
    assert_eq!(
        e.to_debug_string(),
        "topmost, at tests/main.rs:20:9\n|\n|-> E5, at tests/main.rs:5:9\n|\n|-> E4, at tests/main.rs:4:9\n|\n|-> E3, at tests/main.rs:3:9\n|\n|-> E2, at tests/main.rs:2:9\n|\n|-> E1, at tests/main.rs:1:9"
    );
}

#[test]
fn tree_error() {
    let e = new_tree_error().raise(TestError("topmost"), at(20));
    assert_eq!(e.to_display_string(), "topmost");
    assert_eq!(
        e.to_debug_string(),
        "topmost, at tests/main.rs:20:9\n|\n|-> E6, at tests/main.rs:6:9\n    |\n    |-> E5, at tests/main.rs:5:9\n    |   |\n    |   |-> E3, at tests/main.rs:3:9\n    |   |   |\n    |   |   |-> E1, at tests/main.rs:1:9\n    |   |\n    |   |-> E10, at tests/main.rs:10:9\n    |   |   |\n    |   |   |-> E9, at tests/main.rs:9:9\n    |   |\n    |   |-> E12, at tests/main.rs:12:9\n    |       |\n    |       |-> E11, at tests/main.rs:11:9\n    |\n    |-> E4, at tests/main.rs:4:9\n    |   |\n    |   |-> E2, at tests/main.rs:2:9\n    |\n    |-> E8, at tests/main.rs:8:9\n        |\n        |-> E7, at tests/main.rs:7:9"
    );
}

#[test]
fn new_with_source() {
    let e = Exn::new(ErrorWithSource("top", "source"), at(30));
    assert_eq!(
        e.to_debug_string(),
        "top, at tests/main.rs:30:9\n|\n|-> source, at tests/main.rs:30:9"
    );
    assert!(e.error().is_some());
    assert!(e.frame().children()[0].error.value.downcast_ref::<ErrorWithSource>().is_none());
}

#[test]
fn result_ext() {
    let result: Result<(), Exn<TestError>> = Err(Exn::new(TestError("An error"), at(1)));
    let result = result.or_raise(|| TestError("Another error"), at(2));
    let e = result.err().unwrap();
    assert_eq!(
        e.to_debug_string(),
        "Another error, at tests/main.rs:2:9\n|\n|-> An error, at tests/main.rs:1:9"
    );
}

#[test]
fn option_ext() {
    let result: Option<()> = None;
    let result = result.ok_or_raise(|| TestError("An error"), at(1));
    let e = result.err().unwrap();
    assert_eq!(e.to_debug_string(), "An error, at tests/main.rs:1:9");
}

#[test]
fn from_error() {
    fn foo() -> Result<(), Exn<TestError>> {
        Err(Exn::new(TestError("An error"), at(1)))?;
        exn::ok(())
    }

    let result = foo();
    assert_eq!(result.err().unwrap().to_debug_string(), "An error, at tests/main.rs:1:9");
}

#[test]
fn bail() {
    fn foo() -> Result<(), Exn<TestError>> {
        return Err(Exn::new(TestError("An error"), at(1)));
    }

    let result = foo();
    assert_eq!(result.err().unwrap().to_debug_string(), "An error, at tests/main.rs:1:9");
}

#[test]
fn ensure_ok() {
    fn foo() -> Result<(), Exn<TestError>> {
        if !true {
            return Err(Exn::new(TestError("An error"), at(1)));
        }
        exn::ok(())
    }

    assert!(foo().is_ok());
}

#[test]
fn ensure_fail() {
    fn foo() -> Result<(), Exn<TestError>> {
        if !false {
            return Err(Exn::new(TestError("An error"), at(1)));
        }
        exn::ok(())
    }

    let result = foo();
    assert_eq!(result.err().unwrap().to_debug_string(), "An error, at tests/main.rs:1:9");
}

#[test]
fn test_report_compact_straightforward() {
    let e5 = new_linear_error();
    assert_eq!(
        Compact::from(e5).to_debug_string(),
        "E5, at tests/main.rs:5:9\n└─ E4, at tests/main.rs:4:9\n   └─ E3, at tests/main.rs:3:9\n      └─ E2, at tests/main.rs:2:9\n         └─ E1, at tests/main.rs:1:9"
    );
}

#[test]
fn test_report_compact_tree() {
    let e6 = new_tree_error();
    assert_eq!(
        Compact::from(e6).to_debug_string(),
        "E6, at tests/main.rs:6:9\n├─ E5, at tests/main.rs:5:9\n│  ├─ E3, at tests/main.rs:3:9\n│  │  └─ E1, at tests/main.rs:1:9\n│  ├─ E10, at tests/main.rs:10:9\n│  │  └─ E9, at tests/main.rs:9:9\n│  └─ E12, at tests/main.rs:12:9\n│     └─ E11, at tests/main.rs:11:9\n├─ E4, at tests/main.rs:4:9\n│  └─ E2, at tests/main.rs:2:9\n└─ E8, at tests/main.rs:8:9\n   └─ E7, at tests/main.rs:7:9"
    );
}
