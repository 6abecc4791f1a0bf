use vstd::prelude::*;
use vstd::string::StrSliceExecFns;
use crate::generate::NodeWalker;
use crate::walk::{traversal, AccessDescriptor, FieldValue, NodeGraph, NodeValue, Value, WalkEvent};

verus! {

pub open spec fn digit(d: nat) -> char {
    if d == 0 { '0' } else if d == 1 { '1' } else if d == 2 { '2' } else if d == 3 { '3' } else if d == 4 { '4' }
    else if d == 5 { '5' } else if d == 6 { '6' } else if d == 7 { '7' } else if d == 8 { '8' } else { '9' }
}

/// The decimal digits of `n`.
pub open spec fn digits(n: nat) -> Seq<char>
    decreases n,
{
    if n < 10 {
        seq![digit(n)]
    } else {
        digits(n / 10).push(digit(n % 10))
    }
}

/// The decimal form of `v`, with a minus sign where it is negative.
pub open spec fn decimal(v: int) -> Seq<char> {
    if v < 0 {
        seq!['-'] + digits((-v) as nat)
    } else {
        digits(v as nat)
    }
}

/// How a child was reached, as text: `:field`, `[index]` or `#position`.
pub open spec fn label(acc: AccessDescriptor) -> Seq<char> {
    match acc {
        AccessDescriptor::Field(f) => seq![':'] + f@,
        AccessDescriptor::ArrayElement(i) => seq!['['] + digits(i as nat) + seq![']'],
        AccessDescriptor::ListElement(i) => seq!['#'] + digits(i as nat),
    }
}

/// The scalar fields `fs[i..]`, each as ` name=value`.
pub open spec fn scalars_text(fs: Seq<FieldValue>, i: int) -> Seq<char>
    decreases fs.len() - i,
{
    if i < 0 || i >= fs.len() {
        Seq::empty()
    } else {
        let here = match fs[i].value {
            Value::Scalar(v) => seq![' '] + fs[i].name@ + seq!['='] + decimal(v as int),
            _ => Seq::empty(),
        };
        here + scalars_text(fs, i + 1)
    }
}

/// The opening of a node's text: a brace, its tag and its scalar fields.
pub open spec fn head_text(n: NodeValue) -> Seq<char> {
    seq!['{'] + n.tag@ + scalars_text(n.fields@, 0)
}

/// An entry opens the child's text after its label; an exit closes it.
pub open spec fn event_text(g: NodeGraph, e: WalkEvent) -> Seq<char> {
    match e {
        WalkEvent::Enter { access, node, .. } => seq![' '] + label(access) + seq![' '] + if node < g.nodes@.len() {
            head_text(g.nodes@[node as int])
        } else {
            seq!['{']
        },
        WalkEvent::Exit { .. } => seq!['}'],
    }
}

/// The text of the events `es[i..]`.
pub open spec fn events_text(g: NodeGraph, es: Seq<WalkEvent>, i: int) -> Seq<char>
    decreases es.len() - i,
{
    if i < 0 || i >= es.len() {
        Seq::empty()
    } else {
        event_text(g, es[i]) + events_text(g, es, i + 1)
    }
}

/// The bracketed text of the node graph from `root`: the root's opening, the
/// text of each event of its walk, and a closing brace.
pub open spec fn rendering(w: NodeWalker, g: NodeGraph, root: usize) -> Seq<char> {
    if root < g.nodes@.len() {
        head_text(g.nodes@[root as int]) + events_text(g, traversal(w, g, root), 0) + seq!['}']
    } else {
        Seq::empty()
    }
}

/// Relies on `FromIterator<char>` for `String`: the string holds the given
/// characters in order.
#[verifier::external_body]
fn chars_to_string(v: Vec<char>) -> (s: String)
    ensures
        s@ == v@,
{
    v.into_iter().collect()
}

fn push_str(out: &mut Vec<char>, s: &str)
    ensures
        final(out)@ == old(out)@ + s@,
{
    let n = s.unicode_len();
    let ghost start = out@;
    let mut i: usize = 0;
    while i < n
        invariant
            n == s@.len(),
            i <= n,
            out@ == start + s@.subrange(0, i as int),
        decreases n - i,
    {
        out.push(s.get_char(i));
        assert(s@.subrange(0, i + 1) == s@.subrange(0, i as int).push(s@[i as int]));
        i += 1;
    }
    assert(s@.subrange(0, n as int) == s@);
}

fn digit_char(d: u64) -> (c: char)
    requires
        d < 10,
    ensures
        c == digit(d as nat),
{
    if d == 0 { '0' } else if d == 1 { '1' } else if d == 2 { '2' } else if d == 3 { '3' } else if d == 4 { '4' }
    else if d == 5 { '5' } else if d == 6 { '6' } else if d == 7 { '7' } else if d == 8 { '8' } else { '9' }
}

fn push_digits(out: &mut Vec<char>, n: u64)
    ensures
        final(out)@ == old(out)@ + digits(n as nat),
    decreases n,
{
    if n >= 10 {
        push_digits(out, n / 10);
    }
    out.push(digit_char(n % 10));
    assert(out@ =~= old(out)@ + digits(n as nat));
}

fn push_decimal(out: &mut Vec<char>, v: i64)
    ensures
        final(out)@ == old(out)@ + decimal(v as int),
{
    if v < 0 {
        out.push('-');
        let m: u64 = (-(v as i128)) as u64;
        push_digits(out, m);
        assert(out@ =~= old(out)@ + decimal(v as int));
    } else {
        push_digits(out, v as u64);
    }
}

fn push_label(out: &mut Vec<char>, acc: &AccessDescriptor)
    ensures
        final(out)@ == old(out)@ + label(*acc),
{
    match acc {
        AccessDescriptor::Field(f) => {
            out.push(':');
            push_str(out, f.as_str());
        },
        AccessDescriptor::ArrayElement(i) => {
            out.push('[');
            push_digits(out, *i as u64);
            out.push(']');
        },
        AccessDescriptor::ListElement(i) => {
            out.push('#');
            push_digits(out, *i as u64);
        },
    }
    assert(out@ =~= old(out)@ + label(*acc));
}

fn push_head(out: &mut Vec<char>, n: &NodeValue)
    ensures
        final(out)@ == old(out)@ + head_text(*n),
{
    out.push('{');
    push_str(out, n.tag.as_str());
    let ghost start = out@;
    let mut i: usize = 0;
    while i < n.fields.len()
        invariant
            i <= n.fields@.len(),
            out@ + scalars_text(n.fields@, i as int) == start + scalars_text(n.fields@, 0),
        decreases n.fields@.len() - i,
    {
        let ghost before = out@;
        let ghost rest = scalars_text(n.fields@, i + 1);
        match &n.fields[i].value {
            Value::Scalar(v) => {
                out.push(' ');
                push_str(out, n.fields[i].name.as_str());
                out.push('=');
                push_decimal(out, *v);
            },
            _ => {},
        }
        let ghost here = out@.subrange(before.len() as int, out@.len() as int);
        assert(out@ =~= before + here);
        assert(out@ + rest =~= before + (here + rest));
        i += 1;
    }
    assert(out@ =~= out@ + scalars_text(n.fields@, n.fields@.len() as int));
    assert(out@ =~= old(out)@ + head_text(*n));
}

impl NodeWalker {
    /// Renders the node graph from `root` as bracketed text that follows the
    /// walk: `{Tag name=value ...` for the root, then for each child in walk
    /// order its label (`:field`, `[index]` or `#position`) and its own text,
    /// then `}`.
    pub fn render(&self, g: &NodeGraph, root: usize) -> (r: String)
        ensures
            r@ == rendering(*self, *g, root),
    {
        if root >= g.nodes.len() {
            return chars_to_string(Vec::new());
        }
        let events = self.traverse(g, root);
        let mut out: Vec<char> = Vec::new();
        push_head(&mut out, &g.nodes[root]);
        let ghost start = out@;
        let mut i: usize = 0;
        while i < events.len()
            invariant
                i <= events@.len(),
                out@ + events_text(*g, events@, i as int) == start + events_text(*g, events@, 0),
            decreases events@.len() - i,
        {
            let ghost before = out@;
            let ghost rest = events_text(*g, events@, i + 1);
            match &events[i] {
                WalkEvent::Enter { access, node, .. } => {
                    out.push(' ');
                    push_label(&mut out, access);
                    out.push(' ');
                    if *node < g.nodes.len() {
                        push_head(&mut out, &g.nodes[*node]);
                    } else {
                        out.push('{');
                    }
                },
                WalkEvent::Exit { .. } => out.push('}'),
            }
            let ghost here = out@.subrange(before.len() as int, out@.len() as int);
            assert(here =~= event_text(*g, events@[i as int]));
            assert(out@ =~= before + here);
            assert(out@ + rest =~= before + (here + rest));
            i += 1;
        }
        assert(out@ =~= out@ + events_text(*g, events@, events@.len() as int));
        out.push('}');
        assert(out@ =~= rendering(*self, *g, root));
        chars_to_string(out)
    }
}

} // verus!
