//! The header mapping of a request: key to value, insertion order
//! irrelevant, last write wins on duplicate keys.

use vstd::prelude::*;
use vstd::string::*;

use crate::text::{find2, first2_from, lemma_first2_from_spec, str_eq};

verus! {

/// The mapping that a list of key/value entries denotes: a later entry for
/// the same key overrides an earlier one.
pub open spec fn map_of(s: Seq<(String, String)>) -> Map<Seq<char>, Seq<char>>
    decreases s.len(),
{
    if s.len() == 0 {
        Map::empty()
    } else {
        map_of(s.drop_last()).insert(s.last().0@, s.last().1@)
    }
}

/// A request's header mapping.  Viewed as a `Map` from key characters to
/// value characters; inserting an existing key replaces its value.
#[derive(Debug)]
pub struct HeaderMap {
    entries: Vec<(String, String)>,
}

impl View for HeaderMap {
    type V = Map<Seq<char>, Seq<char>>;

    closed spec fn view(&self) -> Map<Seq<char>, Seq<char>> {
        map_of(self.entries@)
    }
}

impl HeaderMap {
    /// The empty mapping.
    pub fn new() -> (h: HeaderMap)
        ensures
            h@ == Map::<Seq<char>, Seq<char>>::empty(),
    {
        HeaderMap { entries: Vec::new() }
    }

    /// Binds `key` to `value`; a later binding of the same key wins.
    pub fn insert(&mut self, key: String, value: String)
        ensures
            final(self)@ == old(self)@.insert(key@, value@),
    {
        let ghost k = key@;
        let ghost v = value@;
        self.entries.push((key, value));
        proof {
            assert(self.entries@.drop_last() =~= old(self).entries@);
            assert(self.entries@.last().0@ == k && self.entries@.last().1@ == v);
        }
    }

    /// The value bound to `key`, if any: the latest entry for it.
    pub fn get(&self, key: &str) -> (r: Option<&String>)
        ensures
            match r {
                Some(v) => self@.contains_key(key@) && v@ == self@[key@],
                None => !self@.contains_key(key@),
            },
    {
        let n = self.entries.len();
        let mut i: usize = n;
        proof {
            assert(self.entries@.take(n as int) =~= self.entries@);
        }
        while i > 0
            invariant
                0 <= i <= n,
                n == self.entries@.len(),
                self@.contains_key(key@) == map_of(self.entries@.take(i as int)).contains_key(
                    key@,
                ),
                self@.contains_key(key@) ==> self@[key@] == map_of(
                    self.entries@.take(i as int),
                )[key@],
            decreases i,
        {
            proof {
                assert(self.entries@.take(i as int).drop_last() =~= self.entries@.take(i - 1));
                assert(self.entries@.take(i as int).last() == self.entries@[i - 1]);
            }
            let entry = &self.entries[i - 1];
            if str_eq(entry.0.as_str(), key) {
                return Some(&entry.1);
            }
            i = i - 1;
        }
        proof {
            assert(self.entries@.take(0) =~= Seq::<(String, String)>::empty());
        }
        None
    }
}

/// The header mapping that a list of lines denotes, folded onto `acc`:
/// lines up to the first empty line are taken; a line holding the
/// colon-space delimiter binds what stands before its first occurrence to
/// what stands after; any other line is skipped.
pub open spec fn headers_from(lines: Seq<Seq<char>>, acc: Map<Seq<char>, Seq<char>>) -> Map<
    Seq<char>,
    Seq<char>,
>
    decreases lines.len(),
{
    if lines.len() == 0 {
        acc
    } else if lines[0].len() == 0 {
        acc
    } else {
        let acc2 = match first2_from(lines[0], ':', ' ', 0) {
            Some(j) => acc.insert(lines[0].take(j), lines[0].skip(j + 2)),
            None => acc,
        };
        headers_from(lines.drop_first(), acc2)
    }
}

/// The header mapping that a list of lines denotes.
pub open spec fn headers_of(lines: Seq<Seq<char>>) -> Map<Seq<char>, Seq<char>> {
    headers_from(lines, Map::empty())
}

/// A line without the colon-space delimiter is skipped: it changes nothing
/// in the mapping that the remaining lines yield.
pub proof fn lemma_line_without_delimiter_skipped(
    lines: Seq<Seq<char>>,
    acc: Map<Seq<char>, Seq<char>>,
)
    requires
        lines.len() > 0,
        lines[0].len() > 0,
        first2_from(lines[0], ':', ' ', 0) is None,
    ensures
        headers_from(lines, acc) == headers_from(lines.drop_first(), acc),
{
}

/// A duplicate key's later value overrides the earlier one: whatever was
/// bound to `key` before, after a later binding the mapping holds the later
/// value.
pub proof fn lemma_later_binding_wins(
    m: Map<Seq<char>, Seq<char>>,
    key: Seq<char>,
    earlier: Seq<char>,
    later: Seq<char>,
)
    ensures
        m.insert(key, earlier).insert(key, later)[key] == later,
        m.insert(key, earlier).insert(key, later) == m.insert(key, later),
{
    assert(m.insert(key, earlier).insert(key, later) =~= m.insert(key, later));
}

/// Parses the header lines of a request: the lines of `lines` from `start`
/// on, up to the first empty line.  Each line is split once on the first
/// colon-space; a line without that delimiter is skipped, and a duplicate
/// key's later value overrides the earlier one.
pub fn parse_headers(lines: &Vec<String>, start: usize) -> (h: HeaderMap)
    requires
        start <= lines@.len(),
    ensures
        h@ == headers_of(lines.deep_view().skip(start as int)),
{
    let n = lines.len();
    let mut h = HeaderMap::new();
    let mut i: usize = start;
    while i < n
        invariant
            start <= i <= n,
            n == lines@.len(),
            headers_of(lines.deep_view().skip(start as int)) == headers_from(
                lines.deep_view().skip(i as int),
                h@,
            ),
        decreases n - i,
    {
        let ghost rest = lines.deep_view().skip(i as int);
        proof {
            assert(rest[0] == lines.deep_view()[i as int]);
            assert(rest.drop_first() =~= lines.deep_view().skip(i + 1));
        }
        let line = lines[i].as_str();
        let ln = line.unicode_len();
        if ln == 0 {
            return h;
        }
        match find2(line, ':', ' ') {
            Some(j) => {
                proof {
                    lemma_first2_from_spec(line@, ':', ' ', 0);
                }
                let key = line.substring_char(0, j);
                let value = line.substring_char(j + 2, ln);
                proof {
                    assert(key@ =~= rest[0].take(j as int));
                    assert(value@ =~= rest[0].skip(j + 2));
                }
                h.insert(key.to_owned(), value.to_owned());
            },
            None => {},
        }
        i = i + 1;
    }
    proof {
        assert(lines.deep_view().skip(n as int) =~= Seq::<Seq<char>>::empty());
    }
    h
}

} // verus!
