use std::any::TypeId;

use exn::AnyhowError;
use exn::ContextView;
use exn::ContextViewMut;
use exn::Exn;
use exn::ExnView;
use exn::ExnViewMut;
use exn::Frame;
use exn::IteratorExt;
use exn::Location;
use exn::Native;
use exn::ResultExt;
use exn::Visitor;
use exn::VisitorMut;

struct Plain(&'static str);

impl exn::Error for Plain {
    fn text(&self) -> vstd::seq::Seq<char> {
        unreachable!()
    }

    fn cause_texts(&self) -> vstd::seq::Seq<vstd::seq::Seq<char>> {
        unreachable!()
    }

    fn message(&self) -> String {
        self.0.to_string()
    }

    fn causes(&self) -> Vec<String> {
        Vec::new()
    }
}

struct Status(u16);

impl exn::Error for Status {
    fn text(&self) -> vstd::seq::Seq<char> {
        unreachable!()
    }

    fn cause_texts(&self) -> vstd::seq::Seq<vstd::seq::Seq<char>> {
        unreachable!()
    }

    fn message(&self) -> String {
        format!("status {}", self.0)
    }

    fn causes(&self) -> Vec<String> {
        Vec::new()
    }
}

struct Wrapped(&'static str, Vec<&'static str>);

impl exn::Error for Wrapped {
    fn text(&self) -> vstd::seq::Seq<char> {
        unreachable!()
    }

    fn cause_texts(&self) -> vstd::seq::Seq<vstd::seq::Seq<char>> {
        unreachable!()
    }

    fn message(&self) -> String {
        self.0.to_string()
    }

    fn causes(&self) -> Vec<String> {
        self.1.iter().map(|s| s.to_string()).collect()
    }
}

fn loc(line: u32) -> Location {
    Location::new("src/app.rs", line, 5)
}

fn leaf(text: &'static str, line: u32) -> Exn<Plain> {
    Exn::new(Plain(text), loc(line))
}

fn depth_of(frame: &Frame) -> usize {
    frame.children().iter().map(|c| 1 + depth_of(c)).max().unwrap_or(0)
}

#[test]
fn raises_grow_depth_one_level_each() {
    let mut e = leaf("L0", 1);
    assert_eq!(depth_of(e.frame()), 0);
    for i in 1..=6u32 {
        let before = e.frame().error.text.clone();
        e = e.raise(Plain("up"), loc(i + 1));
        assert_eq!(depth_of(e.frame()), i as usize);
        assert_eq!(e.frame().children().len(), 1);
        assert_eq!(e.frame().children()[0].error.text, before);
    }
}

#[test]
fn raise_all_of_nothing_has_no_children() {
    let e = Exn::raise_all(Plain("E"), Vec::<Exn<Plain>>::new(), loc(1));
    assert_eq!(e.frame().children().len(), 0);
    assert_eq!(e.to_debug_string(), "E, at src/app.rs:1:5");
}

#[test]
fn raise_all_keeps_children_in_order() {
    let a = leaf("a", 1);
    let b = leaf("b", 2).raise(Plain("b2"), loc(3));
    let c = leaf("c", 4);
    let e = Exn::raise_all(Plain("E"), vec![a, b, c], loc(5));
    let texts: Vec<&str> = e.frame().children().iter().map(|f| f.error.text.as_str()).collect();
    assert_eq!(texts, vec!["a", "b2", "c"]);
    assert_eq!(e.frame().children()[1].children()[0].error.text, "b");
}

#[test]
fn native_causes_follow_the_given_children() {
    let e = leaf("below", 1).raise(Wrapped("top", vec!["cause one", "cause two"]), loc(2));
    let kids = e.frame().children();
    assert_eq!(kids.len(), 2);
    assert_eq!(kids[0].error.text, "below");
    assert_eq!(kids[1].error.text, "cause one");
    assert_eq!(kids[1].children()[0].error.text, "cause two");
    assert_eq!(kids[1].children()[0].children().len(), 0);
    assert_eq!(kids[1].location.line, 2);
}

#[test]
fn find_frame_reaches_the_only_node_of_a_type() {
    let left = leaf("x1", 1).raise(Plain("x2"), loc(2));
    let deep = Exn::new(Status(503), loc(3)).raise(Plain("y1"), loc(4));
    let right = Exn::raise_all(Plain("y2"), vec![leaf("z", 5), deep], loc(6));
    let e = Exn::raise_all(Plain("root"), vec![left, right], loc(7));

    let found = e.find_frame(&TypeId::of::<Status>()).unwrap();
    assert_eq!(found.error.text, "status 503");
    assert_eq!(found.location.line, 3);
    assert_eq!(e.find_payload::<Status>().map(|s| s.0), Some(503));

    let first_plain = e.find_frame(&TypeId::of::<Plain>()).unwrap();
    assert_eq!(first_plain.error.text, "root");
}

#[test]
fn find_frame_on_a_tree_without_the_type_is_absent() {
    let e = leaf("a", 1).raise(Plain("b"), loc(2));
    assert!(e.find_frame(&TypeId::of::<Status>()).is_none());
    assert!(e.find_payload::<Status>().is_none());
}

#[test]
fn recover_gives_back_the_value_and_the_same_tree() {
    let make = || Exn::with_recovery(Plain("failed"), vec![1u8, 2, 3], loc(9)).attach(7u32);
    let (value, tree) = make().recover();
    let plain = make().discard_recovery();
    assert_eq!(value, vec![1u8, 2, 3]);
    assert_eq!(tree.to_debug_string(), plain.to_debug_string());
    assert_eq!(tree.to_compact_string(), plain.to_compact_string());
}

#[test]
fn raise_with_recovery_carries_the_value() {
    let e = leaf("inner", 1).raise_with_recovery(Plain("outer"), "request", loc(2));
    let (value, tree) = e.recover();
    assert_eq!(value, "request");
    assert_eq!(
        tree.to_debug_string(),
        "outer, at src/app.rs:2:5\n|\n|-> inner, at src/app.rs:1:5"
    );
    let e = Exn::raise_all_with_recovery(Plain("all"), vec![leaf("one", 3)], 11i64, loc(4));
    let (value, tree) = e.recover();
    assert_eq!(value, 11);
    assert_eq!(tree.frame().children().len(), 1);
}

#[test]
fn rendering_twice_gives_the_same_text() {
    let e = Exn::raise_all(Plain("F"), vec![leaf("X", 1), leaf("Y", 2).raise(Plain("Z"), loc(3))], loc(4));
    assert_eq!(e.to_debug_string(), e.to_debug_string());
    assert_eq!(e.to_compact_string(), e.to_compact_string());
}

#[test]
fn linear_chain_indented_scenario() {
    let e = leaf("A", 1).raise(Plain("B"), loc(2)).raise(Plain("C"), loc(3));
    assert_eq!(
        e.to_debug_string(),
        "C, at src/app.rs:3:5\n|\n|-> B, at src/app.rs:2:5\n|\n|-> A, at src/app.rs:1:5"
    );
    assert_eq!(Native::from(e).to_debug_string(), "C, at src/app.rs:3:5\n|\n|-> B, at src/app.rs:2:5\n|\n|-> A, at src/app.rs:1:5");
}

#[test]
fn raise_all_compact_scenario() {
    let e = Exn::raise_all(Plain("F"), vec![leaf("X", 1), leaf("Y", 2)], loc(3));
    assert_eq!(
        e.to_compact_string(),
        "F, at src/app.rs:3:5\n├─ X, at src/app.rs:1:5\n└─ Y, at src/app.rs:2:5"
    );
}

#[test]
fn single_child_reports() {
    let e = leaf("A", 1).raise(Plain("B"), loc(2));
    assert_eq!(e.to_compact_string(), "B, at src/app.rs:2:5\n└─ A, at src/app.rs:1:5");
    assert_eq!(e.to_debug_string(), "B, at src/app.rs:2:5\n|\n|-> A, at src/app.rs:1:5");
    let lone = leaf("alone", 8);
    assert_eq!(lone.to_debug_string(), "alone, at src/app.rs:8:5");
    assert_eq!(lone.to_compact_string(), "alone, at src/app.rs:8:5");
}

#[test]
fn outline_indents_two_spaces_per_level() {
    let e = Exn::raise_all(Plain("top"), vec![leaf("a", 1).raise(Plain("b"), loc(2)), leaf("c", 3)], loc(4));
    assert_eq!(
        e.display().to_display_string(),
        "top at src/app.rs:4:5\n  b at src/app.rs:2:5\n    a at src/app.rs:1:5\n  c at src/app.rs:3:5"
    );
}

#[test]
fn suppress_appends_after_existing_children() {
    let mut e = leaf("first", 1).raise(Plain("top"), loc(2));
    e.suppress(leaf("second", 3).raise(Plain("second"), loc(4)));
    e.suppress(leaf("third", 5).raise(Plain("third"), loc(6)));
    let texts: Vec<&str> = e.frame().children().iter().map(|f| f.error.text.as_str()).collect();
    assert_eq!(texts, vec!["first", "second", "third"]);
    assert_eq!(e.to_display_string(), "top");
}

#[test]
fn attached_context_is_kept_in_order_and_found_by_type() {
    let mut e = leaf("a", 1).attach(42u32);
    e.context("note");
    let e = e.attach(7u32);
    assert_eq!(e.frame().contexts.len(), 3);
    let view = ExnView::new(e.frame());
    assert_eq!(view.request_ref::<u32>(), Some(&42));
    assert_eq!(view.request_ref::<&str>(), Some(&"note"));
    assert!(view.request_ref::<i64>().is_none());
    let kinds: Vec<bool> = view.contexts().iter().map(|c| *c.kind() == TypeId::of::<u32>()).collect();
    assert_eq!(kinds, vec![true, false, true]);
}

#[test]
fn error_returns_the_root_payload() {
    let e = leaf("inner", 1).raise(Status(404), loc(2));
    assert_eq!(e.error().map(|s| s.0), Some(404));
    assert_eq!(e.to_display_string(), "status 404");
}

#[test]
fn collect_all_returns_every_success() {
    let items: Vec<Result<u32, &str>> = vec![Ok(1), Ok(2), Ok(3)];
    assert_eq!(items.collect_all(), Ok(vec![1, 2, 3]));
    let none: Vec<Result<u32, &str>> = Vec::new();
    assert_eq!(none.collect_all(), Ok(vec![]));
}

#[test]
fn collect_all_returns_every_failure() {
    let items: Vec<Result<u32, &str>> = vec![Ok(1), Err("a"), Ok(2), Err("b"), Err("c")];
    assert_eq!(items.collect_all(), Err(vec!["a", "b", "c"]));
}

#[test]
fn collect_all_pairs_with_raise_all() {
    let items: Vec<Result<u32, Exn<Plain>>> = vec![Err(leaf("one", 1)), Ok(5), Err(leaf("two", 2))];
    let e = match items.collect_all() {
        Ok(_) => panic!("failures expected"),
        Err(children) => Exn::raise_all(Plain("all failed"), children, loc(3)),
    };
    assert_eq!(
        e.to_compact_string(),
        "all failed, at src/app.rs:3:5\n├─ one, at src/app.rs:1:5\n└─ two, at src/app.rs:2:5"
    );
}

#[test]
fn or_attach_touches_failures_only() {
    let ok: Result<u8, Exn<Plain>> = Ok(3);
    assert_eq!(ok.or_attach(|| 1u8).ok(), Some(3));
    let err: Result<u8, Exn<Plain>> = Err(leaf("bad", 1));
    let e = err.or_attach(|| 9u8).err().unwrap();
    assert_eq!(ExnView::new(e.frame()).request_ref::<u8>(), Some(&9));
}

#[test]
fn location_prints_line_and_column_in_decimal() {
    assert_eq!(Location::new("a.rs", 0, 7).to_text(), "a.rs:0:7");
    assert_eq!(Location::new("b/c.rs", 1234567, 10).to_text(), "b/c.rs:1234567:10");
    assert_eq!(Location::new("", u32::MAX, 9).to_text(), ":4294967295:9");
}

#[test]
fn from_anyhow_keeps_the_chain_outermost_first() {
    let err = anyhow::Error::msg("disk full").context("write failed").context("save failed");
    let e = exn::from_anyhow(err, loc(1));
    assert_eq!(e.first_child_texts(), vec!["save failed", "write failed", "disk full"]);
    assert_eq!(
        e.to_debug_string(),
        "save failed, at src/app.rs:1:5\n|\n|-> write failed, at src/app.rs:1:5\n|\n|-> disk full, at src/app.rs:1:5"
    );
    assert_eq!(e.error().map(|a| a.0.clone()), Some("save failed".to_string()));
}

#[test]
fn from_messages_of_nothing_is_absent() {
    assert!(exn::from_messages(Vec::new(), loc(1)).is_none());
    let one = exn::from_messages(vec!["only".to_string()], loc(2)).unwrap();
    assert_eq!(one.to_debug_string(), "only, at src/app.rs:2:5");
    let _: Option<&AnyhowError> = one.error();
}

struct PreOrder {
    lines: Vec<String>,
}

impl Visitor for PreOrder {
    fn visited(&self, _before: Self, _node: Frame) -> bool {
        unreachable!()
    }

    fn visited_context(&self, _before: Self, _context: exn::ContextValue) -> bool {
        unreachable!()
    }

    fn visit_exn(&mut self, exn: ExnView<'_>) {
        self.lines.push(exn.as_error().text.clone());
        exn.visit_contexts(self);
        exn.visit_first_child(self);
        exn.visit_next_sibling(self);
    }

    fn visit_context(&mut self, context: ContextView<'_>) {
        if let Some(n) = context.as_any().downcast_ref::<u32>() {
            self.lines.push(format!("#{n}"));
        }
    }
}

#[test]
fn visitor_walks_in_pre_order() {
    let e = Exn::raise_all(
        Plain("root"),
        vec![leaf("a", 1).raise(Plain("b"), loc(2)).attach(5u32), leaf("c", 3)],
        loc(4),
    );
    let mut v = PreOrder { lines: Vec::new() };
    e.visit(&mut v);
    assert_eq!(v.lines, vec!["root", "b", "#5", "a", "c"]);

    let view = ExnView::new(e.frame());
    assert!(view.has_first_child());
    assert!(!view.has_next_sibling());
    assert_eq!(view.children_len(), 2);
    let kids = view.children();
    assert!(kids[0].has_next_sibling());
    assert!(!kids[1].has_next_sibling());
    assert_eq!(kids[1].location().line, 3);
    assert_eq!(kids[0].find_payload::<Plain>().map(|p| p.0), Some("b"));
}

struct Bump;

impl VisitorMut for Bump {
    fn visited_mut(&self, _before: Self, _node: Frame) -> bool {
        unreachable!()
    }

    fn visited_context_mut(&self, _before: Self, _context: exn::ContextValue) -> bool {
        unreachable!()
    }

    fn visit_exn_mut(&mut self, mut exn: ExnViewMut<'_>) {
        if let Some(s) = exn.as_any_mut().downcast_mut::<Status>() {
            s.0 += 1;
        }
        exn.visit_contexts(self);
        exn.visit_children(self);
    }

    fn visit_context_mut(&mut self, mut context: ContextViewMut<'_>) {
        if let Some(n) = context.as_any_mut().downcast_mut::<u32>() {
            *n *= 10;
        }
    }
}

#[test]
fn mutable_visitor_changes_payloads_and_context() {
    let mut e = Exn::new(Status(1), loc(1)).attach(3u32).raise(Plain("top"), loc(2));
    e.visit_mut(&mut Bump);
    assert_eq!(e.find_payload::<Status>().map(|s| s.0), Some(2));
    let inner = &e.frame().children()[0];
    assert_eq!(ExnView::new(inner).request_ref::<u32>(), Some(&30));
}

struct SiblingWalk {
    texts: Vec<String>,
}

impl VisitorMut for SiblingWalk {
    fn visited_mut(&self, _before: Self, _node: Frame) -> bool {
        unreachable!()
    }

    fn visited_context_mut(&self, _before: Self, _context: exn::ContextValue) -> bool {
        unreachable!()
    }

    fn visit_exn_mut(&mut self, mut exn: ExnViewMut<'_>) {
        self.texts.push(exn.as_error().text.clone());
        for mut entry in exn.contexts() {
            if let Some(n) = entry.as_any_mut().downcast_mut::<u32>() {
                *n += 1;
            }
        }
        if exn.has_first_child() {
            exn.visit_first_child(self);
        }
        if exn.has_next_sibling() {
            exn.visit_next_sibling(self);
        }
    }

    fn visit_context_mut(&mut self, _context: ContextViewMut<'_>) {}
}

#[test]
fn mutable_visitor_walks_siblings_and_changes_context() {
    let mut e = Exn::raise_all(
        Plain("root"),
        vec![leaf("a", 1).attach(1u32), leaf("b", 2), leaf("c", 3).attach(5u32)],
        loc(4),
    );
    let mut v = SiblingWalk { texts: Vec::new() };
    e.visit_mut(&mut v);
    assert_eq!(v.texts, vec!["root", "a", "b", "c"]);
    let kids = e.frame().children();
    assert_eq!(ExnView::new(&kids[0]).request_ref::<u32>(), Some(&2));
    assert_eq!(ExnView::new(&kids[2]).request_ref::<u32>(), Some(&6));
}
