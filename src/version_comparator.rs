use vstd::prelude::*;
use vstd::string::*;
use crate::text::{parse_u32, parse_u32_text};

verus! {

/// `s` without its leading run of `'v'` characters.
pub open spec fn strip_v(s: Seq<char>) -> Seq<char>
    decreases s.len(),
{
    if s.len() > 0 && s[0] == 'v' { strip_v(s.drop_first()) } else { s }
}

/// The pieces of `s` between `'.'` separators, in order; at least one piece.
pub open spec fn split_dots(s: Seq<char>) -> Seq<Seq<char>>
    decreases s.len(),
{
    if s.len() == 0 {
        seq![Seq::<char>::empty()]
    } else {
        let rest = split_dots(s.drop_last());
        if s.last() == '.' {
            rest.push(Seq::<char>::empty())
        } else {
            rest.update(rest.len() - 1, rest.last().push(s.last()))
        }
    }
}

/// The numbers of a version string such as "v1.2.3": leading `'v'`s dropped, then
/// every dot-separated piece a number; `None` when a piece is not one.
pub open spec fn version_numbers(s: Seq<char>) -> Option<Seq<u32>> {
    let pieces = split_dots(strip_v(s));
    if forall|i: int| 0 <= i < pieces.len() ==> (#[trigger] parse_u32(pieces[i])) is Some {
        Some(pieces.map_values(|p: Seq<char>| parse_u32(p)->0))
    } else {
        None
    }
}

/// Whether `latest` is newer than `current`: the first differing number decides;
/// when one list is a prefix of the other, the longer list is the newer one.
pub open spec fn is_newer(current: Seq<u32>, latest: Seq<u32>) -> bool
    decreases current.len(),
{
    if current.len() == 0 || latest.len() == 0 {
        latest.len() > current.len()
    } else if latest[0] > current[0] {
        true
    } else if current[0] > latest[0] {
        false
    } else {
        is_newer(current.drop_first(), latest.drop_first())
    }
}

/// A version string that is not a dot-separated list of numbers.
#[derive(Debug, Clone, Copy, PartialEq, Eq, Structural)]
pub enum VersionError {
    InvalidFormat,
}

impl VersionError {
    pub fn message(&self) -> (r: String)
        ensures
            r@ == "Invalid version format"@,
    {
        String::from_str("Invalid version format")
    }
}

fn strip_leading_v(s: &str) -> (r: &str)
    ensures
        r@ == strip_v(s@),
{
    let n = s.unicode_len();
    let mut i: usize = 0;
    assert(s@.subrange(0, n as int) =~= s@);
    while i < n && s.get_char(i) == 'v'
        invariant
            i <= n,
            n == s@.len(),
            strip_v(s@) == strip_v(s@.subrange(i as int, n as int)),
        decreases n - i,
    {
        assert(s@.subrange(i as int, n as int).drop_first() =~= s@.subrange(i + 1, n as int));
        i = i + 1;
    }
    s.substring_char(i, n)
}

proof fn lemma_split_dots_nonempty(s: Seq<char>)
    ensures
        split_dots(s).len() >= 1,
    decreases s.len(),
{
    if s.len() > 0 {
        lemma_split_dots_nonempty(s.drop_last());
    }
}

fn parse_version(v: &str) -> (r: Option<Vec<u32>>)
    ensures
        r matches Some(parts) ==> version_numbers(v@) == Some(parts@),
        r is None <==> version_numbers(v@) is None,
{
    let t = strip_leading_v(v);
    let n = t.unicode_len();
    let mut parts: Vec<u32> = Vec::new();
    let mut failed = false;
    let mut start: usize = 0;
    let mut i: usize = 0;
    let ghost mut done: Seq<Seq<char>> = Seq::empty();
    assert(t@.subrange(0, 0) =~= Seq::<char>::empty());
    assert(split_dots(Seq::<char>::empty()) == seq![Seq::<char>::empty()]);
    assert(done.push(t@.subrange(0, 0)) =~= seq![Seq::<char>::empty()]);
    while i < n
        invariant
            start <= i <= n,
            n == t@.len(),
            split_dots(t@.subrange(0, i as int)) == done.push(t@.subrange(start as int, i as int)),
            failed <==> exists|j: int| 0 <= j < done.len() && (#[trigger] parse_u32(done[j])) is None,
            !failed ==> parts@.len() == done.len(),
            !failed ==> forall|j: int| 0 <= j < done.len() ==> parts@[j] == (#[trigger] parse_u32(done[j]))->0,
        decreases n - i,
    {
        let ghost pre = t@.subrange(0, i as int);
        assert(t@.subrange(0, i + 1).drop_last() =~= pre);
        if t.get_char(i) == '.' {
            let piece = t.substring_char(start, i);
            let parsed = parse_u32_text(piece);
            let ghost old_done = done;
            proof {
                done = done.push(t@.subrange(start as int, i as int));
                assert forall|j: int| 0 <= j < old_done.len() implies done[j] == old_done[j] by {}
            }
            match parsed {
                Some(x) => {
                    if !failed {
                        parts.push(x);
                    }
                    if failed {
                        let ghost w = choose|j: int| 0 <= j < old_done.len() && (#[trigger] parse_u32(old_done[j])) is None;
                        assert(parse_u32(done[w]) is None);
                    }
                    assert(failed ==> exists|j: int| 0 <= j < done.len() && (#[trigger] parse_u32(done[j])) is None);
                    assert((exists|j: int| 0 <= j < done.len() && (#[trigger] parse_u32(done[j])) is None) ==> failed) by {
                        if !failed {
                            assert forall|j: int| 0 <= j < done.len() implies (#[trigger] parse_u32(done[j])) is Some by {
                                if j < old_done.len() {
                                    assert(done[j] == old_done[j]);
                                }
                            }
                        }
                    }
                },
                None => {
                    failed = true;
                    assert(parse_u32(done[done.len() - 1]) is None);
                },
            }
            start = i + 1;
            assert(t@.subrange(start as int, i + 1) =~= Seq::<char>::empty());
        } else {
            proof {
                lemma_split_dots_nonempty(pre);
            }
            assert(t@.subrange(start as int, i + 1) =~= t@.subrange(start as int, i as int).push(t@[i as int]));
        }
        assert(split_dots(t@.subrange(0, i + 1)) =~= done.push(t@.subrange(start as int, i + 1)));
        i = i + 1;
    }
    assert(t@.subrange(0, n as int) =~= t@);
    let last = parse_u32_text(t.substring_char(start, n));
    let ghost pieces = done.push(t@.subrange(start as int, n as int));
    assert(pieces == split_dots(strip_v(v@)));
    match last {
        None => {
            assert(parse_u32(pieces[pieces.len() - 1]) is None);
            None
        },
        Some(x) => {
            if failed {
                let ghost j = choose|j: int| 0 <= j < done.len() && (#[trigger] parse_u32(done[j])) is None;
                assert(parse_u32(pieces[j]) is None);
                None
            } else {
                parts.push(x);
                assert forall|j: int| 0 <= j < pieces.len() implies (#[trigger] parse_u32(pieces[j])) is Some by {
                    if j < done.len() {
                        assert(pieces[j] == done[j]);
                    }
                }
                assert(parts@ =~= pieces.map_values(|p: Seq<char>| parse_u32(p)->0));
                Some(parts)
            }
        },
    }
}

/// Whether `latest` names a newer version than `current`; a leading `'v'` is ignored.
pub fn compare_versions(current: &str, latest: &str) -> (r: Result<bool, VersionError>)
    ensures
        match (version_numbers(current@), version_numbers(latest@)) {
            (Some(c), Some(l)) => r == Ok::<bool, VersionError>(is_newer(c, l)),
            _ => r is Err,
        },
{
    let cur = match parse_version(current) {
        Some(c) => c,
        None => return Err(VersionError::InvalidFormat),
    };
    let lat = match parse_version(latest) {
        Some(l) => l,
        None => return Err(VersionError::InvalidFormat),
    };
    assert(version_numbers(current@) == Some(cur@));
    assert(version_numbers(latest@) == Some(lat@));
    let mut i: usize = 0;
    assert(cur@.skip(0) =~= cur@ && lat@.skip(0) =~= lat@);
    while i < cur.len() && i < lat.len()
        invariant
            version_numbers(current@) == Some(cur@),
            version_numbers(latest@) == Some(lat@),
            i <= cur@.len(),
            i <= lat@.len(),
            is_newer(cur@, lat@) == is_newer(cur@.skip(i as int), lat@.skip(i as int)),
        decreases cur@.len() - i,
    {
        let ghost cs = cur@.skip(i as int);
        let ghost ls = lat@.skip(i as int);
        assert(cs[0] == cur@[i as int] && ls[0] == lat@[i as int]);
        if lat[i] > cur[i] {
            assert(is_newer(cs, ls));
            return Ok(true);
        } else if cur[i] > lat[i] {
            assert(!is_newer(cs, ls));
            return Ok(false);
        }
        assert(cs.drop_first() =~= cur@.skip(i + 1));
        assert(ls.drop_first() =~= lat@.skip(i + 1));
        i = i + 1;
    }
    Ok(lat.len() > cur.len())
}

} // verus!
