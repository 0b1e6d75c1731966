use vstd::prelude::*;

use crate::exn::Exn;
use crate::frame::Frame;
use crate::location::location_text;

verus! {

/// The first line of a frame in a report: `{text}, at {file}:{line}:{column}`.
pub open spec fn header(f: Frame) -> Seq<char> {
    f.error.text@ + seq![',', ' ', 'a', 't', ' '] + location_text(f.location@)
}

/// The indented report of the tree at `f`, each line after the first starting with
/// `prefix`. `top` is set while the report is still on the collapsed run from the root.
pub open spec fn indented(f: Frame, top: bool, prefix: Seq<char>) -> Seq<char>
    decreases f, 2nat, 0nat,
{
    header(f) + indented_from(f, top, prefix, 0)
}

/// The lines that the indented report gives to `f`'s children from the `i`-th on.
pub open spec fn indented_from(f: Frame, top: bool, prefix: Seq<char>, i: nat) -> Seq<char>
    decreases f, 1nat, f.children@.len() - i,
{
    if i < f.children@.len() {
        indented_child(f, top, prefix, i) + indented_from(f, top, prefix, i + 1)
    } else {
        Seq::empty()
    }
}

/// The lines that the indented report gives to `f`'s `i`-th child.
///
/// The child takes a rail line `|` and an arrow `|-> ` before its own report. A child
/// with further siblings passes on the continuing prefix `|   `, the last one a blank
/// prefix of four spaces. On the collapsed run, an only child that itself has exactly
/// one child keeps the prefix as it is and stays on the run.
pub open spec fn indented_child(f: Frame, top: bool, prefix: Seq<char>, i: nat) -> Seq<char>
    decreases f, 0nat, 0nat,
{
    if i < f.children@.len() {
        let n = f.children@.len();
        let c = f.children@[i as int];
        let body = if top && n == 1 && c.children@.len() == 1 {
            indented(c, true, prefix)
        } else if i + 1 < n {
            indented(c, false, prefix + seq!['|', ' ', ' ', ' '])
        } else {
            indented(c, false, prefix + seq![' ', ' ', ' ', ' '])
        };
        seq!['\n'] + prefix + seq!['|', '\n'] + prefix + seq!['|', '-', '>', ' '] + body
    } else {
        Seq::empty()
    }
}

/// The compact report of the tree at `f`, each line after the first starting with `prefix`.
pub open spec fn compact(f: Frame, prefix: Seq<char>) -> Seq<char>
    decreases f, 2nat, 0nat,
{
    header(f) + compact_from(f, prefix, 0)
}

/// The lines that the compact report gives to `f`'s children from the `i`-th on.
pub open spec fn compact_from(f: Frame, prefix: Seq<char>, i: nat) -> Seq<char>
    decreases f, 1nat, f.children@.len() - i,
{
    if i < f.children@.len() {
        compact_child(f, prefix, i) + compact_from(f, prefix, i + 1)
    } else {
        Seq::empty()
    }
}

/// The lines that the compact report gives to `f`'s `i`-th child.
///
/// A child with further siblings is drawn after `├─ ` and passes on the prefix `│  `;
/// the last child is drawn after `└─ ` and passes on three spaces.
pub open spec fn compact_child(f: Frame, prefix: Seq<char>, i: nat) -> Seq<char>
    decreases f, 0nat, 0nat,
{
    if i < f.children@.len() {
        let c = f.children@[i as int];
        if i + 1 < f.children@.len() {
            seq!['\n'] + prefix + seq!['├', '─', ' '] + compact(c, prefix + seq!['│', ' ', ' '])
        } else {
            seq!['\n'] + prefix + seq!['└', '─', ' '] + compact(c, prefix + seq![' ', ' ', ' '])
        }
    } else {
        Seq::empty()
    }
}

/// The indented report of a whole tree.
pub open spec fn indented_report(f: Frame) -> Seq<char> {
    indented(f, true, Seq::empty())
}

/// The compact report of a whole tree.
pub open spec fn compact_report(f: Frame) -> Seq<char> {
    compact(f, Seq::empty())
}

/// Appends the first line of `f`'s report to `out`.
pub fn write_header(f: &Frame, out: &mut String)
    ensures
        final(out)@ == old(out)@ + header(*f),
{
    proof {
        reveal_strlit(", at ");
    }
    out.append(f.error.text.as_str());
    out.append(", at ");
    f.location.write_to(out);
    assert(final(out)@ =~= old(out)@ + header(*f));
}

/// Appends the indented report of the tree at `f` to `out`.
pub fn write_indented(f: &Frame, top: bool, prefix: &String, out: &mut String)
    ensures
        final(out)@ == old(out)@ + indented(*f, top, prefix@),
    decreases f, 1nat,
{
    let ghost start = out@;
    write_header(f, out);
    let n = f.children.len();
    let mut i: usize = 0;
    while i < n
        invariant
            n == f.children@.len(),
            i <= n,
            out@ + indented_from(*f, top, prefix@, i as nat) == start + indented(*f, top, prefix@),
        decreases n - i,
    {
        let ghost before = out@;
        write_indented_child(f, top, prefix, i, out);
        assert(out@ + indented_from(*f, top, prefix@, (i + 1) as nat)
            =~= before + indented_from(*f, top, prefix@, i as nat));
        i = i + 1;
    }
    assert(out@ =~= start + indented(*f, top, prefix@));
}

/// Appends the lines of the indented report of `f`'s `i`-th child to `out`.
fn write_indented_child(f: &Frame, top: bool, prefix: &String, i: usize, out: &mut String)
    requires
        i < f.children@.len(),
    ensures
        final(out)@ == old(out)@ + indented_child(*f, top, prefix@, i as nat),
    decreases f, 0nat,
{
    proof {
        reveal_strlit("|\n");
        reveal_strlit("|-> ");
        reveal_strlit("|   ");
        reveal_strlit("    ");
        reveal_strlit("\n");
    }
    let n = f.children.len();
    let c = &f.children[i];
    let ghost before = out@;
    out.append("\n");
    out.append(prefix.as_str());
    out.append("|\n");
    out.append(prefix.as_str());
    out.append("|-> ");
    assert(out@ =~= before + seq!['\n'] + prefix@ + seq!['|', '\n'] + prefix@ + seq!['|', '-', '>', ' ']);
    let ghost mid = out@;
    if top && n == 1 && c.children.len() == 1 {
        write_indented(c, true, prefix, out);
    } else {
        let mut next = prefix.clone();
        if i + 1 < n {
            next.append("|   ");
            assert(next@ =~= prefix@ + seq!['|', ' ', ' ', ' ']);
        } else {
            next.append("    ");
            assert(next@ =~= prefix@ + seq![' ', ' ', ' ', ' ']);
        }
        write_indented(c, false, &next, out);
        assert(out@ == mid + indented(*c, false, next@));
    }
    assert(out@ =~= before + indented_child(*f, top, prefix@, i as nat));
}

/// Appends the compact report of the tree at `f` to `out`.
pub fn write_compact(f: &Frame, prefix: &String, out: &mut String)
    ensures
        final(out)@ == old(out)@ + compact(*f, prefix@),
    decreases f, 1nat,
{
    let ghost start = out@;
    write_header(f, out);
    let n = f.children.len();
    let mut i: usize = 0;
    while i < n
        invariant
            n == f.children@.len(),
            i <= n,
            out@ + compact_from(*f, prefix@, i as nat) == start + compact(*f, prefix@),
        decreases n - i,
    {
        let ghost before = out@;
        write_compact_child(f, prefix, i, out);
        assert(out@ + compact_from(*f, prefix@, (i + 1) as nat)
            =~= before + compact_from(*f, prefix@, i as nat));
        i = i + 1;
    }
    assert(out@ =~= start + compact(*f, prefix@));
}

/// Appends the lines of the compact report of `f`'s `i`-th child to `out`.
fn write_compact_child(f: &Frame, prefix: &String, i: usize, out: &mut String)
    requires
        i < f.children@.len(),
    ensures
        final(out)@ == old(out)@ + compact_child(*f, prefix@, i as nat),
    decreases f, 0nat,
{
    proof {
        reveal_strlit("\n");
        reveal_strlit("├─ ");
        reveal_strlit("└─ ");
        reveal_strlit("│  ");
        reveal_strlit("   ");
    }
    let n = f.children.len();
    let c = &f.children[i];
    let ghost before = out@;
    out.append("\n");
    out.append(prefix.as_str());
    let mut next = prefix.clone();
    if i + 1 < n {
        out.append("├─ ");
        next.append("│  ");
        assert(out@ =~= before + seq!['\n'] + prefix@ + seq!['├', '─', ' ']);
        assert(next@ =~= prefix@ + seq!['│', ' ', ' ']);
    } else {
        out.append("└─ ");
        next.append("   ");
        assert(out@ =~= before + seq!['\n'] + prefix@ + seq!['└', '─', ' ']);
        assert(next@ =~= prefix@ + seq![' ', ' ', ' ']);
    }
    write_compact(c, &next, out);
    assert(out@ =~= before + compact_child(*f, prefix@, i as nat));
}

/// The indented report of the tree at `f`.
pub fn indented_string(f: &Frame) -> (r: String)
    ensures
        r@ == indented_report(*f),
{
    let mut out = String::new();
    let prefix = String::new();
    write_indented(f, true, &prefix, &mut out);
    out
}

/// The compact report of the tree at `f`.
pub fn compact_string(f: &Frame) -> (r: String)
    ensures
        r@ == compact_report(*f),
{
    let mut out = String::new();
    let prefix = String::new();
    write_compact(f, &prefix, &mut out);
    out
}

/// The outline of the tree at `f`: one line per node in depth-first pre-order, each
/// node's line indented by two spaces more than its parent's, reading
/// `{text} at {file}:{line}:{column}`.
pub open spec fn outline(f: Frame, indent: Seq<char>) -> Seq<char>
    decreases f, 1nat, 0nat,
{
    indent + f.error.text@ + seq![' ', 'a', 't', ' '] + location_text(f.location@)
        + outline_from(f, indent, 0)
}

/// The lines that the outline gives to the subtrees of `f`'s children from the `i`-th on.
pub open spec fn outline_from(f: Frame, indent: Seq<char>, i: nat) -> Seq<char>
    decreases f, 0nat, f.children@.len() - i,
{
    if i < f.children@.len() {
        seq!['\n'] + outline(f.children@[i as int], indent + seq![' ', ' '])
            + outline_from(f, indent, i + 1)
    } else {
        Seq::empty()
    }
}

/// Appends the outline of the tree at `f` to `out`.
pub fn write_outline(f: &Frame, indent: &String, out: &mut String)
    ensures
        final(out)@ == old(out)@ + outline(*f, indent@),
    decreases f,
{
    proof {
        reveal_strlit(" at ");
        reveal_strlit("  ");
    }
    let ghost start = out@;
    out.append(indent.as_str());
    out.append(f.error.text.as_str());
    out.append(" at ");
    f.location.write_to(out);
    let mut deeper = indent.clone();
    deeper.append("  ");
    let n = f.children.len();
    let mut i: usize = 0;
    assert(out@ + outline_from(*f, indent@, 0) =~= start + outline(*f, indent@));
    while i < n
        invariant
            n == f.children@.len(),
            i <= n,
            deeper@ == indent@ + seq![' ', ' '],
            out@ + outline_from(*f, indent@, i as nat) == start + outline(*f, indent@),
        decreases n - i,
    {
        proof {
            reveal_strlit("\n");
        }
        let ghost before = out@;
        out.append("\n");
        write_outline(&f.children[i], &deeper, out);
        assert(out@ + outline_from(*f, indent@, (i + 1) as nat)
            =~= before + outline_from(*f, indent@, i as nat));
        i = i + 1;
    }
    assert(out@ =~= start + outline(*f, indent@));
}

/// Reports depend on the tree alone: the same tree reported twice, in any of the three
/// forms, gives the same text both times.
pub proof fn lemma_reports_deterministic(a: Frame, b: Frame)
    requires
        a == b,
    ensures
        indented_report(a) == indented_report(b),
        compact_report(a) == compact_report(b),
        outline(a, Seq::empty()) == outline(b, Seq::empty()),
{
}

/// Handing back a recovery value and dropping it keep the same tree: when `recovered`
/// is the tree that `recover` gives back for a handle and `discarded` the one that
/// `discard_recovery` keeps of the same handle, both report the same in every form.
pub proof fn lemma_recover_matches_discard<E, R>(x: Exn<E, R>, recovered: Frame, discarded: Frame)
    requires
        recovered == x@,
        discarded == x@,
    ensures
        indented_report(recovered) == indented_report(discarded),
        compact_report(recovered) == compact_report(discarded),
        outline(recovered, Seq::empty()) == outline(discarded, Seq::empty()),
{
}

/// An error tree that reports itself as an outline.
pub struct DisplayExn<E> {
    exn: Exn<E>,
}

impl<E> DisplayExn<E> {
    /// The tree reported.
    pub closed spec fn tree(&self) -> Frame {
        self.exn@
    }

    /// Wraps `exn`.
    pub fn new(exn: Exn<E>) -> (r: DisplayExn<E>)
        ensures
            r.tree() == exn@,
    {
        DisplayExn { exn }
    }

    /// The whole tree as an outline.
    pub fn to_display_string(&self) -> (r: String)
        ensures
            r@ == outline(self.tree(), Seq::empty()),
    {
        let mut out = String::new();
        let indent = String::new();
        write_outline(self.exn.frame(), &indent, &mut out);
        out
    }
}

/// An error tree that reports itself in the compact form.
pub struct Compact {
    pub frame: Frame,
}

impl Compact {
    /// The whole tree in the compact form.
    pub fn to_debug_string(&self) -> (r: String)
        ensures
            r@ == compact_report(self.frame),
    {
        compact_string(&self.frame)
    }

    /// The display text of the root error alone.
    pub fn to_display_string(&self) -> (r: String)
        ensures
            r@ == self.frame.error.text@,
    {
        self.frame.error.text.clone()
    }
}

impl<E> From<Exn<E>> for Compact {
    fn from(exn: Exn<E>) -> (r: Compact) {
        Compact { frame: exn.into_frame() }
    }
}

impl<E> vstd::std_specs::convert::FromSpecImpl<Exn<E>> for Compact {
    open spec fn obeys_from_spec() -> bool {
        true
    }

    open spec fn from_spec(v: Exn<E>) -> Compact {
        Compact { frame: v@ }
    }
}

/// An error tree that reports itself in the indented form.
pub struct Native {
    pub frame: Frame,
}

impl Native {
    /// The whole tree in the indented form.
    pub fn to_debug_string(&self) -> (r: String)
        ensures
            r@ == indented_report(self.frame),
    {
        indented_string(&self.frame)
    }

    /// The display text of the root error alone.
    pub fn to_display_string(&self) -> (r: String)
        ensures
            r@ == self.frame.error.text@,
    {
        self.frame.error.text.clone()
    }
}

impl<E> From<Exn<E>> for Native {
    fn from(exn: Exn<E>) -> (r: Native) {
        Native { frame: exn.into_frame() }
    }
}

impl<E> vstd::std_specs::convert::FromSpecImpl<Exn<E>> for Native {
    open spec fn obeys_from_spec() -> bool {
        true
    }

    open spec fn from_spec(v: Exn<E>) -> Native {
        Native { frame: v@ }
    }
}

} // verus!
