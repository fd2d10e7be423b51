//! The tabular response mode: a header-led comma-separated table becomes an
//! ordered sequence of flat records.
//!
//! The first row names the fields; every later nonempty row is zipped
//! positionally against the header. A short row simply populates fewer keys;
//! extra trailing fields without a header are dropped. Every field stays a
//! string; nothing is coerced.

use vstd::prelude::*;
use crate::strutil::{
    to_chars, from_chars, pairs_view, split_on, views_of, sub_chars, split_all,
};

verus! {

/// One flat record: field names mapped to string values, in header order.
#[derive(Debug, Clone)]
pub struct Record {
    pairs: Vec<(String, String)>,
}

impl View for Record {
    type V = Seq<(Seq<char>, Seq<char>)>;

    closed spec fn view(&self) -> Seq<(Seq<char>, Seq<char>)> {
        pairs_view(self.pairs@)
    }
}

/// The value recorded under `key`: when a field name repeats, the last
/// occurrence wins, as it would in a map filled by repeated insertion.
pub open spec fn lookup(rec: Seq<(Seq<char>, Seq<char>)>, key: Seq<char>) -> Option<Seq<char>>
    decreases rec.len(),
{
    if rec.len() == 0 {
        None
    } else if rec.last().0 == key {
        Some(rec.last().1)
    } else {
        lookup(rec.drop_last(), key)
    }
}

impl Record {
    /// How many fields the record populates.
    pub fn len(&self) -> (r: usize)
        ensures
            r == self@.len(),
    {
        self.pairs.len()
    }

    /// The pair at position `i`.
    pub fn pair(&self, i: usize) -> (r: &(String, String))
        requires
            i < self@.len(),
        ensures
            (r.0@, r.1@) == self@[i as int],
    {
        &self.pairs[i]
    }

    /// All pairs, in header order.
    pub fn pairs(&self) -> (r: &Vec<(String, String)>)
        ensures
            pairs_view(r@) == self@,
    {
        &self.pairs
    }

    /// The value recorded under `key`, if any; a repeated field name yields
    /// its last occurrence.
    pub fn get(&self, key: &str) -> (r: Option<&String>)
        ensures
            match r {
                Some(v) => lookup(self@, key@) == Some(v@),
                None => lookup(self@, key@) is None,
            },
    {
        let n = self.pairs.len();
        let mut i: usize = n;
        proof {
            assert(self@.subrange(0, n as int) =~= self@);
        }
        while i > 0
            invariant
                0 <= i <= n,
                n == self.pairs@.len(),
                lookup(self@, key@) == lookup(self@.subrange(0, i as int), key@),
            decreases i,
        {
            let ghost pre = self@.subrange(0, i as int);
            proof {
                assert(pre.last() == self@[i as int - 1]);
                assert(pre.drop_last() =~= self@.subrange(0, i as int - 1));
            }
            if key_matches(&self.pairs[i - 1].0, key) {
                return Some(&self.pairs[i - 1].1);
            }
            i = i - 1;
        }
        None
    }
}

/// Whether a stored key equals the queried one, character for character.
fn key_matches(stored: &String, key: &str) -> (r: bool)
    ensures
        r == (stored@ == key@),
{
    let owned = key.to_owned();
    stored.eq(&owned)
}

/// A line with its trailing carriage return, if any, removed.
pub open spec fn strip_cr(line: Seq<char>) -> Seq<char> {
    if line.len() > 0 && line.last() == '\r' {
        line.drop_last()
    } else {
        line
    }
}

/// The header zipped positionally against one row's fields; the shorter side
/// bounds the record.
pub open spec fn zip_record(header: Seq<Seq<char>>, fields: Seq<Seq<char>>) -> Seq<
    (Seq<char>, Seq<char>),
> {
    let m = if header.len() <= fields.len() {
        header.len()
    } else {
        fields.len()
    };
    Seq::new(m, |i: int| (header[i], fields[i]))
}

/// The records of the data lines, in order; empty lines yield no record.
pub open spec fn records_of(header: Seq<Seq<char>>, lines: Seq<Seq<char>>) -> Seq<
    Seq<(Seq<char>, Seq<char>)>,
>
    decreases lines.len(),
{
    if lines.len() == 0 {
        Seq::empty()
    } else {
        let l = strip_cr(lines[0]);
        let rest = records_of(header, lines.drop_first());
        if l.len() == 0 {
            rest
        } else {
            seq![zip_record(header, split_on(l, ','))] + rest
        }
    }
}

/// The whole table of a response body: the first line names the fields,
/// every later nonempty line is one record.
pub open spec fn table_of(body: Seq<char>) -> Seq<Seq<(Seq<char>, Seq<char>)>> {
    let lines = split_on(body, '\n');
    let header = split_on(strip_cr(lines[0]), ',');
    records_of(header, lines.drop_first())
}

/// The views of a sequence of records.
pub open spec fn records_view(rs: Seq<Record>) -> Seq<Seq<(Seq<char>, Seq<char>)>> {
    Seq::new(rs.len(), |i: int| rs[i]@)
}

/// A copy of `line` with a trailing carriage return removed.
fn strip_cr_copy(line: &Vec<char>) -> (r: Vec<char>)
    ensures
        r@ == strip_cr(line@),
{
    let n = line.len();
    if n > 0 && line[n - 1] == '\r' {
        let r = sub_chars(line, 0, n - 1);
        proof {
            assert(line@.subrange(0, n as int - 1) =~= line@.drop_last());
        }
        r
    } else {
        let r = sub_chars(line, 0, n);
        proof {
            assert(line@.subrange(0, n as int) =~= line@);
        }
        r
    }
}

/// Builds one record from the header and one row's fields.
fn zip_exec(header: &Vec<Vec<char>>, fields: &Vec<Vec<char>>) -> (r: Record)
    ensures
        r@ == zip_record(views_of(header@), views_of(fields@)),
{
    let m = if header.len() <= fields.len() {
        header.len()
    } else {
        fields.len()
    };
    let mut pairs: Vec<(String, String)> = Vec::new();
    let mut j: usize = 0;
    while j < m
        invariant
            0 <= j <= m,
            m == if header@.len() <= fields@.len() {
                header@.len()
            } else {
                fields@.len()
            },
            pairs_view(pairs@) == zip_record(views_of(header@), views_of(fields@)).subrange(
                0,
                j as int,
            ),
        decreases m - j,
    {
        let k = from_chars(&header[j]);
        let v = from_chars(&fields[j]);
        let ghost pv_old = pairs_view(pairs@);
        pairs.push((k, v));
        proof {
            let zr = zip_record(views_of(header@), views_of(fields@));
            assert(zr[j as int] == (header@[j as int]@, fields@[j as int]@));
            assert(pairs_view(pairs@) =~= pv_old.push((k@, v@)));
            assert(pv_old.push(zr[j as int]) =~= zr.subrange(0, j as int + 1));
        }
        j = j + 1;
    }
    proof {
        assert(zip_record(views_of(header@), views_of(fields@)).subrange(0, m as int) =~=
            zip_record(views_of(header@), views_of(fields@)));
    }
    Record { pairs }
}

/// Parses a whole table body into its records, in order.
pub fn parse_table(body: &str) -> (r: Vec<Record>)
    ensures
        records_view(r@) == table_of(body@),
{
    let chars = to_chars(body);
    let lines = split_all(&chars, '\n');
    let ghost lv = views_of(lines@);
    let header_line = strip_cr_copy(&lines[0]);
    let header = split_all(&header_line, ',');
    let ghost hv = views_of(header@);
    proof {
        assert(lv.len() >= 1);
        assert(hv == split_on(strip_cr(lv[0]), ','));
    }
    let mut out: Vec<Record> = Vec::new();
    let mut i: usize = 1;
    proof {
        assert(lv.subrange(1, lv.len() as int) =~= lv.drop_first());
        assert(records_view(out@) =~= Seq::<Seq<(Seq<char>, Seq<char>)>>::empty());
        assert(Seq::<Seq<(Seq<char>, Seq<char>)>>::empty() + records_of(hv, lv.drop_first()) =~=
            records_of(hv, lv.drop_first()));
    }
    while i < lines.len()
        invariant
            1 <= i <= lines@.len(),
            lv == views_of(lines@),
            hv == views_of(header@),
            table_of(body@) == records_of(hv, lv.drop_first()),
            records_of(hv, lv.drop_first()) == records_view(out@) + records_of(
                hv,
                lv.subrange(i as int, lv.len() as int),
            ),
        decreases lines@.len() - i,
    {
        let ghost rem = lv.subrange(i as int, lv.len() as int);
        proof {
            assert(rem[0] == lv[i as int]);
            assert(rem.drop_first() =~= lv.subrange(i as int + 1, lv.len() as int));
        }
        let li = strip_cr_copy(&lines[i]);
        let ghost out_old = records_view(out@);
        if li.len() > 0 {
            let fields = split_all(&li, ',');
            let rec = zip_exec(&header, &fields);
            let ghost rv = rec@;
            out.push(rec);
            proof {
                assert(records_view(out@) =~= out_old.push(rv));
                let tail = records_of(hv, rem.drop_first());
                assert(out_old + (seq![rv] + tail) =~= records_view(out@) + tail);
            }
        }
        i = i + 1;
    }
    proof {
        assert(lv.subrange(i as int, lv.len() as int) =~= Seq::<Seq<char>>::empty());
        assert(records_of(hv, Seq::<Seq<char>>::empty()) =~= Seq::<
            Seq<(Seq<char>, Seq<char>)>,
        >::empty());
        assert(records_view(out@) + Seq::<Seq<(Seq<char>, Seq<char>)>>::empty() =~= records_view(
            out@,
        ));
    }
    out
}

} // verus!
