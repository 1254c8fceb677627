//! The path filter: a configured denylist of emitting-module names, matched
//! by exact string equality — never by prefix or glob.

use vstd::prelude::*;
use vstd::string::{StrSliceExecFns, StringExecFns};

verus! {

/// The segments of a configuration string split on commas, empty segments
/// included: an empty string has one empty segment, and each comma opens a
/// new segment.
pub open spec fn spec_split_commas(s: Seq<char>) -> Seq<Seq<char>>
    decreases s.len(),
{
    if s.len() == 0 {
        seq![Seq::<char>::empty()]
    } else if s[0] == ',' {
        seq![Seq::<char>::empty()] + spec_split_commas(s.drop_first())
    } else {
        let rest = spec_split_commas(s.drop_first());
        seq![seq![s[0]] + rest[0]] + rest.drop_first()
    }
}

/// The ignored-path set parsed from a configuration string: the comma
/// segments with empty ones (from leading, trailing or doubled commas)
/// discarded, in order of appearance, whitespace kept as written.
pub open spec fn spec_ignored_paths(s: Seq<char>) -> Seq<Seq<char>> {
    spec_split_commas(s).filter(|seg: Seq<char>| seg.len() > 0)
}

/// A target passes the filter exactly when it equals no ignored entry.
pub open spec fn spec_allowed(ignored: Seq<Seq<char>>, target: Seq<char>) -> bool {
    !ignored.contains(target)
}

/// Law: matching is exact string equality.  A target that equals an ignored
/// entry is dropped; any other target — a strict superstring or substring
/// of an entry included — passes.
pub proof fn lemma_filter_exact_match(ignored: Seq<Seq<char>>, target: Seq<char>)
    ensures
        ignored.contains(target) ==> !spec_allowed(ignored, target),
        (forall|i: int| 0 <= i < ignored.len() ==> ignored[i] != target) ==> spec_allowed(
            ignored,
            target,
        ),
{
}

/// Splitting one more character extends the split of what came before it.
proof fn lemma_split_step(s: Seq<char>, i: int)
    requires
        0 <= i < s.len(),
    ensures
        s[i] == ',' ==> spec_split_commas(s.skip(i)) == seq![Seq::<char>::empty()]
            + spec_split_commas(s.skip(i + 1)),
        s[i] != ',' ==> spec_split_commas(s.skip(i)) == seq![
            seq![s[i]] + spec_split_commas(s.skip(i + 1))[0],
        ] + spec_split_commas(s.skip(i + 1)).drop_first(),
{
    let t = s.skip(i);
    assert(t.len() == s.len() - i > 0);
    assert(t[0] == s[i]);
    assert(t.drop_first() =~= s.skip(i + 1));
}

/// Parses the ignored-path configuration string: split on commas, empty
/// segments discarded, no other normalization.
pub fn parse_ignored_paths(config: &str) -> (r: Vec<String>)
    ensures
        r.deep_view() == spec_ignored_paths(config@),
{
    let n = config.unicode_len();
    let mut segments: Vec<String> = Vec::new();
    let mut cur = String::new();
    let mut i: usize = 0;
    proof {
        assert(config@.skip(0) =~= config@);
        assert(segments.deep_view() =~= Seq::<Seq<char>>::empty());
    }
    while i < n
        invariant
            i <= n,
            n == config@.len(),
            spec_split_commas(config@) == segments.deep_view() + seq![
                cur@ + spec_split_commas(config@.skip(i as int))[0],
            ] + spec_split_commas(config@.skip(i as int)).drop_first(),
        decreases n - i,
    {
        proof {
            lemma_split_step(config@, i as int);
        }
        let c = config.get_char(i);
        if c == ',' {
            let ghost old_segments = segments.deep_view();
            let ghost old_cur = cur@;
            segments.push(cur);
            cur = String::new();
            proof {
                assert(segments.deep_view() =~= old_segments.push(old_cur));
                assert(old_cur + Seq::<char>::empty() =~= old_cur);
                assert(segments.deep_view() + seq![
                    cur@ + spec_split_commas(config@.skip(i + 1))[0],
                ] + spec_split_commas(config@.skip(i + 1)).drop_first() =~= old_segments + seq![
                    old_cur + spec_split_commas(config@.skip(i as int))[0],
                ] + spec_split_commas(config@.skip(i as int)).drop_first());
            }
        } else {
            let ghost old_cur = cur@;
            let one = config.substring_char(i, i + 1);
            cur.append(one);
            proof {
                assert(one@ =~= seq![config@[i as int]]);
                assert(cur@ =~= old_cur + seq![config@[i as int]]);
                let rest = spec_split_commas(config@.skip(i + 1));
                assert(spec_split_commas(config@.skip(i as int))[0] == seq![config@[i as int]]
                    + rest[0]);
                assert(spec_split_commas(config@.skip(i as int)).drop_first() =~= rest.drop_first());
                assert(old_cur + (seq![config@[i as int]] + rest[0]) =~= cur@ + rest[0]);
            }
        }
        i = i + 1;
    }
    proof {
        assert(config@.skip(n as int) =~= Seq::<char>::empty());
        assert(spec_split_commas(Seq::<char>::empty()) == seq![Seq::<char>::empty()]);
        assert(cur@ + Seq::<char>::empty() =~= cur@);
        assert(seq![Seq::<char>::empty()].drop_first() =~= Seq::<Seq<char>>::empty());
        assert(spec_split_commas(config@) =~= segments.deep_view().push(cur@));
    }
    let ghost all_segments = segments.deep_view().push(cur@);
    segments.push(cur);
    proof {
        assert(segments.deep_view() =~= all_segments);
    }
    let mut out: Vec<String> = Vec::new();
    let mut j: usize = 0;
    proof {
        assert(segments.deep_view().take(0) =~= Seq::<Seq<char>>::empty());
        lemma_filter_empty();
        assert(out.deep_view() =~= Seq::<Seq<char>>::empty());
    }
    while j < segments.len()
        invariant
            j <= segments.len(),
            segments.deep_view() == all_segments,
            all_segments == spec_split_commas(config@),
            out.deep_view() == all_segments.take(j as int).filter(|seg: Seq<char>| seg.len() > 0),
        decreases segments.len() - j,
    {
        proof {
            lemma_keep_nonempty_step(all_segments, j as int);
        }
        let ghost old_out = out.deep_view();
        if !segments[j].as_str().is_empty() {
            out.push(segments[j].clone());
            proof {
                assert(out.deep_view() =~= old_out.push(all_segments[j as int]));
            }
        }
        j = j + 1;
    }
    proof {
        assert(all_segments.take(all_segments.len() as int) =~= all_segments);
    }
    out
}

/// Filtering nothing keeps nothing.
proof fn lemma_filter_empty()
    ensures
        Seq::<Seq<char>>::empty().filter(|seg: Seq<char>| seg.len() > 0) == Seq::<Seq<
            char,
        >>::empty(),
{
    reveal(Seq::filter);
}

/// Keeping the non-empty segments of one more segment extends what was kept
/// of the segments before it.
proof fn lemma_keep_nonempty_step(segs: Seq<Seq<char>>, j: int)
    requires
        0 <= j < segs.len(),
    ensures
        segs[j].len() > 0 ==> segs.take(j + 1).filter(|seg: Seq<char>| seg.len() > 0) == segs.take(
            j,
        ).filter(|seg: Seq<char>| seg.len() > 0).push(segs[j]),
        segs[j].len() == 0 ==> segs.take(j + 1).filter(|seg: Seq<char>| seg.len() > 0) == segs.take(
            j,
        ).filter(|seg: Seq<char>| seg.len() > 0),
{
    reveal(Seq::filter);
    let s1 = segs.take(j + 1);
    assert(s1.drop_last() =~= segs.take(j));
    assert(s1.last() == segs[j]);
}

/// Decides whether a target passes the filter: it does exactly when it
/// equals no ignored entry.
pub fn is_allowed(target: &str, ignored: &Vec<String>) -> (r: bool)
    ensures
        r == spec_allowed(ignored.deep_view(), target@),
{
    let t = target.to_owned();
    let mut j: usize = 0;
    while j < ignored.len()
        invariant
            j <= ignored.len(),
            t@ == target@,
            forall|k: int| 0 <= k < j ==> ignored.deep_view()[k] != target@,
        decreases ignored.len() - j,
    {
        if ignored[j] == t {
            proof {
                assert(ignored.deep_view()[j as int] == target@);
            }
            return false;
        }
        j = j + 1;
    }
    proof {
        assert forall|k: int| 0 <= k < ignored.deep_view().len() implies ignored.deep_view()[k]
            != target@ by {}
        if ignored.deep_view().contains(target@) {
            let k = choose|k: int|
                0 <= k < ignored.deep_view().len() && ignored.deep_view()[k] == target@;
        }
    }
    true
}

} // verus!
