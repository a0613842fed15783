//! Slash-separated path arithmetic: splitting into components, joining,
//! neutralizing escape attempts in archive entry names, and the model of
//! how a filesystem resolves `.` and `..` against a base directory.

use vstd::prelude::*;

verus! {

use vstd::string::StrSliceExecFns;

/// The views of a sequence of strings.
pub open spec fn seq_views(v: Seq<String>) -> Seq<Seq<char>> {
    Seq::new(v.len(), |i: int| v[i]@)
}

/// A path split on `/`, with empty components kept: `"a//b"` yields
/// `["a", "", "b"]`, and the split of a string is never empty.
pub open spec fn spec_split(s: Seq<char>) -> Seq<Seq<char>>
    decreases s.len(),
{
    if s.len() == 0 {
        seq![Seq::<char>::empty()]
    } else if s.last() == '/' {
        spec_split(s.drop_last()).push(Seq::<char>::empty())
    } else {
        let rest = spec_split(s.drop_last());
        rest.update(rest.len() - 1, rest.last().push(s.last()))
    }
}

/// Components joined with a single `/` between each pair.
pub open spec fn spec_join(cs: Seq<Seq<char>>) -> Seq<char>
    decreases cs.len(),
{
    if cs.len() == 0 {
        Seq::empty()
    } else if cs.len() == 1 {
        cs[0]
    } else {
        spec_join(cs.drop_last()) + seq!['/'] + cs.last()
    }
}

/// A component that may stand under a destination directory: non-empty,
/// not `.` or `..`, and free of separators.
pub open spec fn component_ok(c: Seq<char>) -> bool {
    &&& c.len() > 0
    &&& c != seq!['.']
    &&& c != seq!['.', '.']
    &&& forall|i: int| 0 <= i < c.len() ==> c[i] != '/'
}

/// The component filter used by sanitization, as a named predicate.
pub open spec fn ok_component_pred() -> spec_fn(Seq<char>) -> bool {
    |c: Seq<char>| component_ok(c)
}

/// The components of an entry name once every empty, `.` and `..`
/// component is dropped: what extraction is allowed to write under the
/// destination.
pub open spec fn spec_sanitize(s: Seq<char>) -> Seq<Seq<char>> {
    spec_split(s).filter(ok_component_pred())
}

/// How a filesystem resolves relative components against a base directory:
/// `..` pops one component (never above the root), `.` and empty
/// components change nothing, anything else descends.
pub open spec fn spec_resolve(base: Seq<Seq<char>>, rel: Seq<Seq<char>>) -> Seq<Seq<char>>
    decreases rel.len(),
{
    if rel.len() == 0 {
        base
    } else if rel[0] == seq!['.', '.'] {
        spec_resolve(if base.len() > 0 {
            base.drop_last()
        } else {
            base
        }, rel.drop_first())
    } else if rel[0] == seq!['.'] || rel[0] =~= Seq::<char>::empty() {
        spec_resolve(base, rel.drop_first())
    } else {
        spec_resolve(base.push(rel[0]), rel.drop_first())
    }
}

/// Splits a path string on `/`; empty components are kept.
pub fn split_path(s: &str) -> (r: Vec<String>)
    ensures
        seq_views(r@) == spec_split(s@),
        r@.len() > 0,
{
    let n: usize = s.unicode_len();
    let mut out: Vec<String> = Vec::new();
    let mut cur: String = String::new();
    let mut i: usize = 0;
    proof {
        assert(s@.take(0) =~= Seq::<char>::empty());
        assert(seq_views(out@).push(cur@) =~= spec_split(s@.take(0)));
    }
    while i < n
        invariant
            i <= n,
            n == s@.len(),
            seq_views(out@).push(cur@) == spec_split(s@.take(i as int)),
        decreases n - i,
    {
        let ghost prev_out = out@;
        let ghost prev_cur = cur@;
        let c = s.get_char(i);
        if c == '/' {
            out.push(cur);
            cur = String::new();
        } else {
            cur.push(c);
        }
        proof {
            let t1 = s@.take(i + 1);
            assert(t1.drop_last() =~= s@.take(i as int));
            assert(t1.last() == c);
            if c == '/' {
                assert(seq_views(out@) =~= seq_views(prev_out).push(prev_cur));
                assert(seq_views(out@).push(cur@) =~= spec_split(t1));
            } else {
                assert(seq_views(out@) =~= seq_views(prev_out));
                let rest = spec_split(s@.take(i as int));
                assert(rest.last() == prev_cur);
                assert(seq_views(out@).push(cur@) =~= rest.update(
                    rest.len() - 1,
                    rest.last().push(c),
                ));
            }
        }
        i = i + 1;
    }
    proof {
        assert(s@.take(n as int) =~= s@);
    }
    out.push(cur);
    proof {
        assert(seq_views(out@) =~= spec_split(s@));
    }
    out
}

/// Joins components with `/`.
pub fn join_path(v: &Vec<String>) -> (r: String)
    ensures
        r@ == spec_join(seq_views(v@)),
{
    let mut out = String::new();
    let mut i: usize = 0;
    while i < v.len()
        invariant
            i <= v@.len(),
            out@ == spec_join(seq_views(v@).take(i as int)),
        decreases v@.len() - i,
    {
        if i > 0 {
            out.push('/');
        }
        out.push_str(v[i].as_str());
        proof {
            let t1 = seq_views(v@).take(i + 1);
            assert(t1.drop_last() =~= seq_views(v@).take(i as int));
            assert(t1.last() == v@[i as int]@);
            assert(out@ =~= spec_join(t1));
        }
        i = i + 1;
    }
    proof {
        assert(seq_views(v@).take(v@.len() as int) =~= seq_views(v@));
    }
    out
}

/// Whether this component may stand under a destination directory.
pub fn component_is_ok(c: &String) -> (r: bool)
    ensures
        r == component_ok(c@),
{
    let n: usize = c.as_str().unicode_len();
    if n == 0 {
        proof {
            assert(!component_ok(c@));
        }
        return false;
    }
    let mut dots_only = true;
    let mut i: usize = 0;
    while i < n
        invariant
            i <= n,
            n == c@.len(),
            forall|j: int| 0 <= j < i ==> c@[j] != '/',
            dots_only <==> c@.take(i as int) =~= Seq::new(i as nat, |j: int| '.'),
        decreases n - i,
    {
        let ch = c.as_str().get_char(i);
        if ch == '/' {
            proof {
                assert(!component_ok(c@));
            }
            return false;
        }
        if ch != '.' {
            dots_only = false;
        }
        proof {
            let t1 = c@.take(i + 1);
            assert(t1 =~= c@.take(i as int).push(c@[i as int]));
            if c@[i as int] == '.' {
                assert((c@.take(i as int) =~= Seq::new(i as nat, |j: int| '.')) <==> (t1
                    =~= Seq::new((i + 1) as nat, |j: int| '.')));
            } else {
                assert(Seq::new((i + 1) as nat, |j: int| '.')[i as int] == '.');
                assert(t1[i as int] == c@[i as int]);
                assert(!(t1 =~= Seq::new((i + 1) as nat, |j: int| '.')));
            }
        }
        i = i + 1;
    }
    proof {
        assert(c@.take(n as int) =~= c@);
    }
    if dots_only && n <= 2 {
        proof {
            if n == 1 {
                assert(c@ =~= seq!['.']);
            } else {
                assert(c@ =~= seq!['.', '.']);
            }
        }
        false
    } else {
        proof {
            if n == 1 {
                assert(c@[0] != '.' ==> c@ != seq!['.']);
                assert(c@ != seq!['.', '.']);
            } else if n == 2 {
                assert(c@ != seq!['.']);
                assert((c@ =~= seq!['.', '.']) ==> (c@.take(2) =~= Seq::new(
                    2 as nat,
                    |j: int| '.',
                )));
            } else {
                assert(c@ != seq!['.'] && c@ != seq!['.', '.']);
            }
        }
        true
    }
}

/// Drops every empty, `.` and `..` component of an entry name: the
/// remainder is all that extraction may create under the destination.
pub fn sanitize_path(s: &str) -> (r: Vec<String>)
    ensures
        seq_views(r@) == spec_sanitize(s@),
{
    broadcast use vstd::seq_lib::group_filter_ensures;

    let parts = split_path(s);
    let mut out: Vec<String> = Vec::new();
    let mut i: usize = 0;
    proof {
        reveal(Seq::filter);
        assert(seq_views(parts@).take(0) =~= Seq::<Seq<char>>::empty());
        assert(seq_views(out@) =~= Seq::<Seq<char>>::empty().filter(ok_component_pred()));
    }
    while i < parts.len()
        invariant
            i <= parts@.len(),
            seq_views(parts@) == spec_split(s@),
            seq_views(out@) == seq_views(parts@).take(i as int).filter(ok_component_pred()),
        decreases parts@.len() - i,
    {
        let ghost prev_out = out@;
        let keep = component_is_ok(&parts[i]);
        if keep {
            let cp = parts[i].clone();
            out.push(cp);
        }
        proof {
            reveal(Seq::filter);
            let t1 = seq_views(parts@).take(i + 1);
            assert(t1.drop_last() =~= seq_views(parts@).take(i as int));
            assert(t1.last() == parts@[i as int]@);
            if keep {
                assert(seq_views(out@) =~= seq_views(prev_out).push(parts@[i as int]@));
            } else {
                assert(seq_views(out@) =~= seq_views(prev_out));
            }
        }
        i = i + 1;
    }
    proof {
        assert(seq_views(parts@).take(parts@.len() as int) =~= seq_views(parts@));
    }
    out
}

/// Every component a sanitized name keeps is acceptable.
pub broadcast proof fn lemma_sanitize_components_ok(s: Seq<char>, i: int)
    requires
        0 <= i < spec_sanitize(s).len(),
    ensures
        component_ok(#[trigger] spec_sanitize(s)[i]),
{
    broadcast use vstd::seq_lib::group_filter_ensures;

}

/// Resolving components that are all acceptable only descends: the result
/// is the base with the components appended, so the base directory is
/// always a prefix of where extraction writes.
pub proof fn lemma_resolve_stays_within(base: Seq<Seq<char>>, rel: Seq<Seq<char>>)
    requires
        forall|i: int| 0 <= i < rel.len() ==> component_ok(#[trigger] rel[i]),
    ensures
        spec_resolve(base, rel) == base + rel,
        base.is_prefix_of(spec_resolve(base, rel)),
    decreases rel.len(),
{
    if rel.len() == 0 {
        assert(spec_resolve(base, rel) =~= base + rel);
    } else {
        assert(component_ok(rel[0]));
        assert(rel[0] != seq!['.', '.'] && rel[0] != seq!['.'] && rel[0].len() > 0);
        lemma_resolve_stays_within(base.push(rel[0]), rel.drop_first());
        assert(base.push(rel[0]) + rel.drop_first() =~= base + rel);
    }
    assert(base.is_prefix_of(base + rel)) by {
        assert((base + rel).take(base.len() as int) =~= base);
    }
}

/// Path-escape safety: whatever an archive entry is named, the directory
/// the sanitized components resolve to lies at or under the destination.
pub proof fn lemma_sanitized_never_escapes(dest: Seq<Seq<char>>, entry_name: Seq<char>)
    ensures
        spec_resolve(dest, spec_sanitize(entry_name)) == dest + spec_sanitize(entry_name),
        dest.is_prefix_of(spec_resolve(dest, spec_sanitize(entry_name))),
{
    assert forall|i: int| 0 <= i < spec_sanitize(entry_name).len() implies component_ok(
        #[trigger] spec_sanitize(entry_name)[i],
    ) by {
        lemma_sanitize_components_ok(entry_name, i);
    }
    lemma_resolve_stays_within(dest, spec_sanitize(entry_name));
}

/// The base name of a path: its last `/`-separated component.
pub open spec fn spec_base_name(s: Seq<char>) -> Seq<char> {
    spec_split(s).last()
}

/// Returns the last `/`-separated component of a path.
pub fn base_name(s: &str) -> (r: String)
    ensures
        r@ == spec_base_name(s@),
{
    let parts = split_path(s);
    let i = parts.len() - 1;
    let r = parts[i].clone();
    proof {
        assert(seq_views(parts@).last() == parts@[parts@.len() - 1]@);
    }
    r
}

/// Two path strings joined with a `/`.
pub fn concat_path(a: &str, b: &str) -> (r: String)
    ensures
        r@ == a@ + seq!['/'] + b@,
{
    let mut out = String::new();
    out.push_str(a);
    out.push('/');
    out.push_str(b);
    proof {
        assert(out@ =~= a@ + seq!['/'] + b@);
    }
    out
}

} // verus!
