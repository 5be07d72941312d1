//! Cache keys: a stable, injective encoding of a tool invocation.
//!
//! Each part (the tool, then each argument) is escaped so that it holds no
//! space: a backslash becomes `\\` and a space becomes `\s`. The escaped parts
//! are then joined by single spaces. Arguments that hold neither character
//! appear unchanged, so `imgadm` with `list -j` is keyed `imgadm list -j`.
use vstd::prelude::*;

verus! {

/// The escape sequence of one character.
pub open spec fn escape_char(c: char) -> Seq<char> {
    if c == '\\' {
        seq!['\\', '\\']
    } else if c == ' ' {
        seq!['\\', 's']
    } else {
        seq![c]
    }
}

/// A part with every backslash and space escaped.
pub open spec fn escape(s: Seq<char>) -> Seq<char>
    decreases s.len(),
{
    if s.len() == 0 {
        Seq::empty()
    } else {
        escape_char(s[0]) + escape(s.drop_first())
    }
}

/// The arguments, each escaped and preceded by a space.
pub open spec fn encode_args(args: Seq<Seq<char>>) -> Seq<char>
    decreases args.len(),
{
    if args.len() == 0 {
        Seq::empty()
    } else {
        encode_args(args.drop_last()) + seq![' '] + escape(args.last())
    }
}

/// The cache key of running `tool` with `args`.
pub open spec fn invocation_key(tool: Seq<char>, args: Seq<Seq<char>>) -> Seq<char> {
    escape(tool) + encode_args(args)
}

/// The views of a list of strings.
pub open spec fn views(v: Seq<String>) -> Seq<Seq<char>> {
    v.map_values(|s: String| s@)
}

proof fn lemma_escape_snoc(s: Seq<char>, c: char)
    ensures
        escape(s.push(c)) == escape(s) + escape_char(c),
    decreases s.len(),
{
    if s.len() == 0 {
        assert(s.push(c).drop_first() =~= Seq::<char>::empty());
        assert(escape(s.push(c)) =~= escape_char(c) + escape(Seq::<char>::empty()));
    } else {
        assert(s.push(c).drop_first() =~= s.drop_first().push(c));
        lemma_escape_snoc(s.drop_first(), c);
        assert(escape(s.push(c)) =~= escape(s) + escape_char(c));
    }
}

proof fn lemma_escape_no_space(s: Seq<char>)
    ensures
        !escape(s).contains(' '),
    decreases s.len(),
{
    if s.len() > 0 {
        lemma_escape_no_space(s.drop_first());
        let e = escape(s);
        assert forall|i: int| 0 <= i < e.len() implies e[i] != ' ' by {
            let h = escape_char(s[0]);
            if i >= h.len() {
                assert(e[i] == escape(s.drop_first())[i - h.len()]);
            }
        }
    }
}

proof fn lemma_escape_empty(s: Seq<char>)
    ensures
        (escape(s).len() == 0) == (s.len() == 0),
{
    if s.len() > 0 {
        assert(escape_char(s[0]).len() >= 1);
    }
}

/// Distinct parts have distinct escapes.
pub proof fn lemma_escape_injective(a: Seq<char>, b: Seq<char>)
    requires
        escape(a) == escape(b),
    ensures
        a == b,
    decreases a.len(),
{
    lemma_escape_empty(a);
    lemma_escape_empty(b);
    if a.len() > 0 {
        let e = escape(a);
        let ha = escape_char(a[0]);
        let hb = escape_char(b[0]);
        assert(e[0] == ha[0]);
        assert(e[0] == hb[0]);
        if ha[0] == '\\' {
            assert(e[1] == ha[1]);
            assert(e[1] == hb[1]);
        }
        assert(a[0] == b[0]);
        assert(escape(a.drop_first()) =~= e.subrange(ha.len() as int, e.len() as int));
        assert(escape(b.drop_first()) =~= e.subrange(ha.len() as int, e.len() as int));
        lemma_escape_injective(a.drop_first(), b.drop_first());
        assert(a =~= seq![a[0]] + a.drop_first());
        assert(b =~= seq![b[0]] + b.drop_first());
    }
}

/// Two invocations share a key only if they are the same invocation.
pub proof fn lemma_invocation_key_injective(
    t1: Seq<char>,
    a1: Seq<Seq<char>>,
    t2: Seq<char>,
    a2: Seq<Seq<char>>,
)
    requires
        invocation_key(t1, a1) == invocation_key(t2, a2),
    ensures
        t1 == t2,
        a1 == a2,
    decreases a1.len() + a2.len(),
{
    let x = invocation_key(t1, a1);
    lemma_escape_no_space(t1);
    lemma_escape_no_space(t2);
    if a1.len() == 0 && a2.len() == 0 {
        assert(escape(t1) =~= x);
        assert(escape(t2) =~= x);
        lemma_escape_injective(t1, t2);
    } else if a1.len() == 0 {
        let l = a2.last();
        lemma_escape_no_space(l);
        let front2 = escape(t2) + encode_args(a2.drop_last());
        assert(x =~= front2 + seq![' '] + escape(l));
        assert(x[front2.len() as int] == ' ');
        assert(x =~= escape(t1));
        assert(escape(t1).contains(' '));
    } else if a2.len() == 0 {
        let l = a1.last();
        lemma_escape_no_space(l);
        let front1 = escape(t1) + encode_args(a1.drop_last());
        assert(x =~= front1 + seq![' '] + escape(l));
        assert(x[front1.len() as int] == ' ');
        assert(x =~= escape(t2));
        assert(escape(t2).contains(' '));
    } else {
        let l1 = a1.last();
        let l2 = a2.last();
        lemma_escape_no_space(l1);
        lemma_escape_no_space(l2);
        let e1 = escape(l1);
        let e2 = escape(l2);
        let front1 = escape(t1) + encode_args(a1.drop_last());
        let front2 = escape(t2) + encode_args(a2.drop_last());
        assert(x =~= front1 + seq![' '] + e1);
        assert(x =~= front2 + seq![' '] + e2);
        if e1.len() < e2.len() {
            let i = x.len() - e1.len() - 1;
            assert(x[i] == ' ');
            assert(x[i] == e2[i - front2.len() - 1]);
            assert(e2.contains(' '));
        } else if e2.len() < e1.len() {
            let i = x.len() - e2.len() - 1;
            assert(x[i] == ' ');
            assert(x[i] == e1[i - front1.len() - 1]);
            assert(e1.contains(' '));
        }
        assert(e1 =~= x.subrange(x.len() - e1.len(), x.len() as int));
        assert(e2 =~= x.subrange(x.len() - e2.len(), x.len() as int));
        lemma_escape_injective(l1, l2);
        assert(front1 =~= x.subrange(0, front1.len() as int));
        assert(front2 =~= x.subrange(0, front2.len() as int));
        assert(invocation_key(t1, a1.drop_last()) =~= front1);
        assert(invocation_key(t2, a2.drop_last()) =~= front2);
        lemma_invocation_key_injective(t1, a1.drop_last(), t2, a2.drop_last());
        assert(a1 =~= a1.drop_last().push(l1));
        assert(a2 =~= a2.drop_last().push(l2));
    }
}

/// Appends the escape of `s` to `out`.
fn push_escaped(out: &mut String, s: &str)
    ensures
        final(out)@ == old(out)@ + escape(s@),
{
    let n = s.unicode_len();
    let mut i: usize = 0;
    while i < n
        invariant
            n == s@.len(),
            i <= n,
            out@ == old(out)@ + escape(s@.subrange(0, i as int)),
        decreases n - i,
    {
        let c = s.get_char(i);
        proof {
            lemma_escape_snoc(s@.subrange(0, i as int), c);
            assert(s@.subrange(0, i as int).push(c) =~= s@.subrange(0, i + 1));
            reveal_strlit("\\\\");
            reveal_strlit("\\s");
        }
        if c == '\\' {
            out.append("\\\\");
        } else if c == ' ' {
            out.append("\\s");
        } else {
            out.append(s.substring_char(i, i + 1));
            assert(s@.subrange(i as int, i + 1) =~= seq![c]);
        }
        i = i + 1;
    }
    assert(s@.subrange(0, n as int) =~= s@);
}

/// The cache key of running `tool` with `args`; distinct invocations get
/// distinct keys (see `lemma_invocation_key_injective`).
pub fn cache_key(tool: &str, args: &Vec<String>) -> (r: String)
    ensures
        r@ == invocation_key(tool@, views(args@)),
{
    let mut out = String::new();
    push_escaped(&mut out, tool);
    let mut i: usize = 0;
    while i < args.len()
        invariant
            i <= args.len(),
            out@ == escape(tool@) + encode_args(views(args@.subrange(0, i as int))),
        decreases args.len() - i,
    {
        proof {
            reveal_strlit(" ");
        }
        out.append(" ");
        push_escaped(&mut out, args[i].as_str());
        proof {
            let pre = views(args@.subrange(0, i as int));
            let next = views(args@.subrange(0, i + 1));
            assert(next.drop_last() =~= pre);
            assert(next.last() == args@[i as int]@);
        }
        i = i + 1;
    }
    assert(args@.subrange(0, args.len() as int) =~= args@);
    out
}

} // verus!
