//! URL composition and its parse-back.
//!
//! A request URL is the base origin, a resource path beginning with `/`, and
//! an optional ordered list of query pairs, each key and value
//! percent-encoded. Repeated query keys keep their order. The parser inverts
//! the builder exactly on well-formed origins and paths
//! ([`lemma_url_round_trip`]).

use vstd::prelude::*;
use vstd::string::StringExecFns;
use crate::strutil::{
    to_chars, from_chars, push_char, pairs_view, find_char, split_on, views_of, sub_chars,
    find_range, split_all, lemma_find_at, lemma_find_none, lemma_split_no_sep, lemma_split_step,
};
use crate::urlenc::{
    enc_component, dec_component, is_encoded_output_char, encode_component, decode_chars,
    lemma_enc_output_chars, lemma_decode_encode,
};

verus! {

/// One encoded query pair: `key=value`.
pub open spec fn pair_string(p: (Seq<char>, Seq<char>)) -> Seq<char> {
    enc_component(p.0) + seq!['='] + enc_component(p.1)
}

/// The encoded query pairs joined with `&`.
pub open spec fn query_string(ps: Seq<(Seq<char>, Seq<char>)>) -> Seq<char>
    decreases ps.len(),
{
    if ps.len() == 0 {
        Seq::empty()
    } else if ps.len() == 1 {
        pair_string(ps[0])
    } else {
        pair_string(ps[0]) + seq!['&'] + query_string(ps.drop_first())
    }
}

/// The whole URL: origin, path, and, when any pairs exist, `?` and the query.
pub open spec fn url_spec(
    origin: Seq<char>,
    path: Seq<char>,
    ps: Seq<(Seq<char>, Seq<char>)>,
) -> Seq<char> {
    origin + path + if ps.len() == 0 {
        Seq::<char>::empty()
    } else {
        seq!['?'] + query_string(ps)
    }
}

/// An ASCII letter.
pub open spec fn is_alpha(c: char) -> bool {
    (97 <= c as u32 && c as u32 <= 122) || (65 <= c as u32 && c as u32 <= 90)
}

/// `o` is `scheme://host` with the colon at `k`: a nonempty all-letter
/// scheme, then `://`, then a nonempty host free of `/`, `?` and `#`.
pub open spec fn origin_shape(o: Seq<char>, k: int) -> bool {
    &&& 1 <= k
    &&& k + 3 < o.len()
    &&& (forall|j: int| 0 <= j < k ==> is_alpha(#[trigger] o[j]))
    &&& o[k] == ':'
    &&& o[k + 1] == '/'
    &&& o[k + 2] == '/'
    &&& (forall|j: int|
        k + 3 <= j < o.len() ==> #[trigger] o[j] != '/' && o[j] != '?' && o[j] != '#')
}

/// A well-formed base origin.
pub open spec fn valid_origin(o: Seq<char>) -> bool {
    exists|k: int| origin_shape(o, k)
}

/// A well-formed resource path: starts with `/`, no `?` or `#`.
pub open spec fn valid_path(p: Seq<char>) -> bool {
    &&& p.len() >= 1
    &&& p[0] == '/'
    &&& (forall|j: int| 0 <= j < p.len() ==> #[trigger] p[j] != '?' && p[j] != '#')
}

/// Parse of one `key=value` segment: split at the first `=` and decode both
/// sides.
pub open spec fn parse_pair(t: Seq<char>) -> Option<(Seq<char>, Seq<char>)> {
    match find_char(t, '=') {
        None => None,
        Some(e) => {
            let kd = dec_component(t.subrange(0, e));
            let vd = dec_component(t.subrange(e + 1, t.len() as int));
            if kd is Some && vd is Some {
                Some((kd->0, vd->0))
            } else {
                None
            }
        },
    }
}

/// Parses each segment of a query in order; `None` if any segment fails.
pub open spec fn pairs_of(segs: Seq<Seq<char>>) -> Option<Seq<(Seq<char>, Seq<char>)>>
    decreases segs.len(),
{
    if segs.len() == 0 {
        Some(Seq::empty())
    } else {
        match parse_pair(segs[0]) {
            None => None,
            Some(p) => match pairs_of(segs.drop_first()) {
                None => None,
                Some(r) => Some(seq![p] + r),
            },
        }
    }
}

/// Parse of a whole query string: segments between `&`, each a pair.
pub open spec fn parse_query(qs: Seq<char>) -> Option<Seq<(Seq<char>, Seq<char>)>> {
    pairs_of(split_on(qs, '&'))
}

/// Parse of a whole URL back into origin, path and query pairs.
pub open spec fn parse_url_spec(s: Seq<char>) -> Option<
    (Seq<char>, Seq<char>, Seq<(Seq<char>, Seq<char>)>),
> {
    match find_char(s, ':') {
        None => None,
        Some(k) => if k < 1 || s.len() < k + 3 || s[k + 1] != '/' || s[k + 2] != '/' {
            None
        } else {
            let rest = s.subrange(k + 3, s.len() as int);
            match find_char(rest, '/') {
                None => None,
                Some(h) => if h < 1 {
                    None
                } else {
                    let pstart = k + 3 + h;
                    let origin = s.subrange(0, pstart);
                    let tail = s.subrange(pstart, s.len() as int);
                    match find_char(tail, '?') {
                        None => Some((origin, tail, Seq::empty())),
                        Some(q) => match parse_query(tail.subrange(q + 1, tail.len() as int)) {
                            None => None,
                            Some(ps) => Some((origin, tail.subrange(0, q), ps)),
                        },
                    }
                },
            }
        },
    }
}

/// Every character of an encoded pair is encoder output or the `=` joint.
proof fn lemma_pair_chars(p: (Seq<char>, Seq<char>))
    ensures
        forall|i: int|
            0 <= i < pair_string(p).len() ==> is_encoded_output_char(#[trigger] pair_string(p)[i])
                || pair_string(p)[i] == '=',
{
    lemma_enc_output_chars(p.0);
    lemma_enc_output_chars(p.1);
    let t = pair_string(p);
    let a = enc_component(p.0);
    let b = enc_component(p.1);
    assert forall|i: int|
        0 <= i < t.len() implies is_encoded_output_char(t[i]) || t[i] == '=' by {
        if i < a.len() {
            assert(t[i] == a[i]);
        } else if i == a.len() {
            assert(t[i] == '=');
        } else {
            assert(t[i] == b[i - a.len() - 1]);
        }
    }
}

/// Every character of a whole query string is encoder output, `=` or `&`.
proof fn lemma_query_chars(ps: Seq<(Seq<char>, Seq<char>)>)
    ensures
        forall|i: int|
            0 <= i < query_string(ps).len() ==> is_encoded_output_char(
                #[trigger] query_string(ps)[i],
            ) || query_string(ps)[i] == '=' || query_string(ps)[i] == '&',
    decreases ps.len(),
{
    if ps.len() == 1 {
        lemma_pair_chars(ps[0]);
    } else if ps.len() > 1 {
        lemma_pair_chars(ps[0]);
        lemma_query_chars(ps.drop_first());
        let t = query_string(ps);
        let a = pair_string(ps[0]);
        let b = query_string(ps.drop_first());
        assert forall|i: int|
            0 <= i < t.len() implies is_encoded_output_char(t[i]) || t[i] == '=' || t[i]
            == '&' by {
            if i < a.len() {
                assert(t[i] == a[i]);
            } else if i == a.len() {
                assert(t[i] == '&');
            } else {
                assert(t[i] == b[i - a.len() - 1]);
            }
        }
    }
}

/// The pair parser inverts the pair builder.
proof fn lemma_parse_pair(p: (Seq<char>, Seq<char>))
    ensures
        parse_pair(pair_string(p)) == Some(p),
{
    let t = pair_string(p);
    let a = enc_component(p.0);
    let b = enc_component(p.1);
    lemma_enc_output_chars(p.0);
    assert(t[a.len() as int] == '=');
    assert forall|j: int| 0 <= j < a.len() implies t[j] != '=' by {
        assert(t[j] == a[j]);
    }
    lemma_find_at(t, '=', a.len() as int);
    assert(t.subrange(0, a.len() as int) =~= a);
    assert(t.subrange(a.len() as int + 1, t.len() as int) =~= b);
    lemma_decode_encode(p.0);
    lemma_decode_encode(p.1);
    assert(p == (p.0, p.1));
}

/// The query parser inverts the query builder, pair by pair and in order.
proof fn lemma_parse_query(ps: Seq<(Seq<char>, Seq<char>)>)
    requires
        ps.len() >= 1,
    ensures
        parse_query(query_string(ps)) == Some(ps),
    decreases ps.len(),
{
    let qs = query_string(ps);
    if ps.len() == 1 {
        lemma_pair_chars(ps[0]);
        assert forall|j: int| 0 <= j < qs.len() implies qs[j] != '&' by {}
        lemma_split_no_sep(qs, '&');
        lemma_parse_pair(ps[0]);
        let segs = split_on(qs, '&');
        assert(segs == seq![qs]);
        assert(segs[0] == qs);
        assert(segs.drop_first() =~= Seq::<Seq<char>>::empty());
        assert(pairs_of(segs.drop_first()) == Some(Seq::<(Seq<char>, Seq<char>)>::empty()));
        assert(seq![ps[0]] + Seq::<(Seq<char>, Seq<char>)>::empty() =~= ps);
    } else {
        let a = pair_string(ps[0]);
        let rest = query_string(ps.drop_first());
        lemma_pair_chars(ps[0]);
        assert forall|j: int| 0 <= j < a.len() implies a[j] != '&' by {}
        assert(qs == a + seq!['&'] + rest);
        lemma_split_step(a, rest, '&');
        lemma_parse_pair(ps[0]);
        lemma_parse_query(ps.drop_first());
        let segs = split_on(qs, '&');
        assert(segs == seq![a] + split_on(rest, '&'));
        assert(segs[0] == a);
        assert(segs.drop_first() =~= split_on(rest, '&'));
        assert(seq![ps[0]] + ps.drop_first() =~= ps);
    }
}

/// The URL parser inverts the URL builder: for every well-formed origin and
/// path and every ordered list of query pairs, the built URL parses back into
/// exactly that origin, that path, and those pairs in the same order.
pub proof fn lemma_url_round_trip(
    origin: Seq<char>,
    path: Seq<char>,
    ps: Seq<(Seq<char>, Seq<char>)>,
)
    requires
        valid_origin(origin),
        valid_path(path),
    ensures
        parse_url_spec(url_spec(origin, path, ps)) == Some((origin, path, ps)),
{
    let s = url_spec(origin, path, ps);
    let k = choose|k: int| origin_shape(origin, k);
    let qpart: Seq<char> = if ps.len() == 0 {
        Seq::empty()
    } else {
        seq!['?'] + query_string(ps)
    };
    assert(s == origin + path + qpart);

    // the first ':' is the scheme separator
    assert forall|j: int| 0 <= j < k implies s[j] != ':' by {
        assert(s[j] == origin[j]);
        assert(is_alpha(origin[j]));
    }
    assert(s[k] == origin[k]);
    lemma_find_at(s, ':', k);
    assert(s[k + 1] == origin[k + 1]);
    assert(s[k + 2] == origin[k + 2]);

    // the first '/' after '://' closes the host
    let rest = s.subrange(k + 3, s.len() as int);
    let h = origin.len() - (k + 3);
    assert forall|j: int| 0 <= j < h implies rest[j] != '/' by {
        assert(rest[j] == origin[k + 3 + j]);
    }
    assert(rest[h] == path[0]);
    lemma_find_at(rest, '/', h);

    let pstart = k + 3 + h;
    assert(pstart == origin.len());
    assert(s.subrange(0, pstart) =~= origin);
    let tail = s.subrange(pstart, s.len() as int);
    assert(tail =~= path + qpart);

    if ps.len() == 0 {
        assert(tail =~= path);
        assert forall|j: int| 0 <= j < tail.len() implies tail[j] != '?' by {
            assert(tail[j] == path[j]);
        }
        lemma_find_none(tail, '?');
        assert(Seq::<(Seq<char>, Seq<char>)>::empty() =~= ps);
    } else {
        let qs = query_string(ps);
        lemma_query_chars(ps);
        assert forall|j: int| 0 <= j < path.len() implies tail[j] != '?' by {
            assert(tail[j] == path[j]);
        }
        assert(tail[path.len() as int] == '?');
        lemma_find_at(tail, '?', path.len() as int);
        assert(tail.subrange(0, path.len() as int) =~= path);
        assert(tail.subrange(path.len() as int + 1, tail.len() as int) =~= qs);
        lemma_parse_query(ps);
    }
}

/// Builds the URL string: origin, path, and the encoded query pairs in
/// order. Pure composition; the shape laws hold when origin and path are
/// well-formed (see [`lemma_url_round_trip`]).
pub fn compose_url(origin: &str, path: &str, params: &Vec<(String, String)>) -> (r: String)
    ensures
        r@ == url_spec(origin@, path@, pairs_view(params@)),
{
    let ghost pv = pairs_view(params@);
    let mut out = String::from_str(origin);
    out.append(path);
    if params.len() == 0 {
        proof {
            assert(pv.len() == 0);
            assert(origin@ + path@ + Seq::<char>::empty() =~= origin@ + path@);
            assert(out@ =~= url_spec(origin@, path@, pv));
        }
        return out;
    }
    push_char(&mut out, '?');
    let mut i: usize = 0;
    while i < params.len()
        invariant
            0 <= i <= params@.len(),
            pv == pairs_view(params@),
            i == 0 ==> out@ == origin@ + path@ + seq!['?'],
            i >= 1 ==> out@ == origin@ + path@ + seq!['?'] + query_string(
                pv.subrange(0, i as int),
            ),
        decreases params@.len() - i,
    {
        let ghost out_old = out@;
        if i > 0 {
            push_char(&mut out, '&');
        }
        let pk = encode_component(params[i].0.as_str());
        out.append(pk.as_str());
        push_char(&mut out, '=');
        let pw = encode_component(params[i].1.as_str());
        out.append(pw.as_str());
        proof {
            let prev = pv.subrange(0, i as int);
            let here = pv[i as int];
            assert(here == (params@[i as int].0@, params@[i as int].1@));
            assert(pv.subrange(0, i as int + 1) =~= prev.push(here));
            if i == 0 {
                assert(prev.push(here) =~= seq![here]);
                assert(query_string(seq![here]) == pair_string(here));
                assert(out@ =~= origin@ + path@ + seq!['?'] + pair_string(here));
            } else {
                lemma_query_string_push(prev, here);
                assert(out@ =~= origin@ + path@ + seq!['?'] + (query_string(prev) + seq!['&']
                    + pair_string(here)));
            }
        }
        i = i + 1;
    }
    proof {
        assert(pv.subrange(0, i as int) =~= pv);
        assert(origin@ + path@ + seq!['?'] + query_string(pv) =~= origin@ + path@ + (seq!['?']
            + query_string(pv)));
    }
    out
}

/// Appending one pair extends the query string with `&` and that pair.
proof fn lemma_query_string_push(ps: Seq<(Seq<char>, Seq<char>)>, p: (Seq<char>, Seq<char>))
    requires
        ps.len() >= 1,
    ensures
        query_string(ps.push(p)) == query_string(ps) + seq!['&'] + pair_string(p),
    decreases ps.len(),
{
    let e = ps.push(p);
    if ps.len() == 1 {
        assert(e.len() == 2);
        assert(e[0] == ps[0]);
        assert(e.drop_first() =~= seq![p]);
        assert(query_string(seq![p]) == pair_string(p));
        assert(pair_string(ps[0]) + seq!['&'] + pair_string(p) =~= query_string(ps) + seq!['&']
            + pair_string(p));
    } else {
        lemma_query_string_push(ps.drop_first(), p);
        assert(e[0] == ps[0]);
        assert(e.drop_first() =~= ps.drop_first().push(p));
        assert(pair_string(ps[0]) + seq!['&'] + (query_string(ps.drop_first()) + seq!['&']
            + pair_string(p)) =~= (pair_string(ps[0]) + seq!['&'] + query_string(ps.drop_first()))
            + seq!['&'] + pair_string(p));
    }
}

/// Exec mirror of [`is_alpha`].
fn is_alpha_exec(c: char) -> (r: bool)
    ensures
        r == is_alpha(c),
{
    let v = c as u32;
    (97 <= v && v <= 122) || (65 <= v && v <= 90)
}

/// In a string whose first `i` characters are letters and whose `i`-th is
/// not, only `i` can be the scheme separator.
proof fn lemma_origin_candidate(o: Seq<char>, i: int)
    requires
        0 <= i < o.len(),
        forall|j: int| 0 <= j < i ==> is_alpha(#[trigger] o[j]),
        !is_alpha(o[i]),
    ensures
        forall|k: int| origin_shape(o, k) ==> k == i,
{
    assert forall|k: int| origin_shape(o, k) implies k == i by {
        assert(o[k] == ':');
        assert(!is_alpha(o[k]));
        if k < i {
            assert(is_alpha(o[k]));
        }
        if k > i {
            assert(is_alpha(o[i]));
        }
    }
}

/// Whether `o` is a well-formed base origin.
pub fn origin_is_valid(o: &str) -> (b: bool)
    ensures
        b == valid_origin(o@),
{
    let v = to_chars(o);
    let n = v.len();
    let mut i: usize = 0;
    while i < n && is_alpha_exec(v[i])
        invariant
            0 <= i <= n,
            n == v@.len(),
            v@ == o@,
            forall|j: int| 0 <= j < i ==> is_alpha(#[trigger] o@[j]),
        decreases n - i,
    {
        i = i + 1;
    }
    if i == n {
        proof {
            assert forall|k: int| !origin_shape(o@, k) by {
                if origin_shape(o@, k) {
                    assert(o@[k] == ':');
                    assert(is_alpha(o@[k]));
                }
            }
        }
        return false;
    }
    proof {
        lemma_origin_candidate(o@, i as int);
    }
    if i == 0 || v[i] != ':' {
        proof {
            assert forall|k: int| !origin_shape(o@, k) by {
                if origin_shape(o@, k) {
                    assert(k == i);
                }
            }
        }
        return false;
    }
    if n - i < 4 || v[i + 1] != '/' || v[i + 2] != '/' {
        proof {
            assert forall|k: int| !origin_shape(o@, k) by {
                if origin_shape(o@, k) {
                    assert(k == i);
                }
            }
        }
        return false;
    }
    let mut j: usize = i + 3;
    while j < n
        invariant
            i + 3 <= j <= n,
            n == v@.len(),
            v@ == o@,
            i as int + 3 < n,
            o@[i as int] == ':',
            o@[i as int + 1] == '/',
            o@[i as int + 2] == '/',
            1 <= i < n,
            forall|j2: int| 0 <= j2 < i ==> is_alpha(#[trigger] o@[j2]),
            !is_alpha(o@[i as int]),
            forall|j2: int|
                i + 3 <= j2 < j ==> #[trigger] o@[j2] != '/' && o@[j2] != '?' && o@[j2] != '#',
        decreases n - j,
    {
        let c = v[j];
        if c == '/' || c == '?' || c == '#' {
            proof {
                lemma_origin_candidate(o@, i as int);
                assert forall|k: int| !origin_shape(o@, k) by {
                    if origin_shape(o@, k) {
                        assert(k == i);
                        assert(o@[j as int] != '/' && o@[j as int] != '?' && o@[j as int] != '#');
                    }
                }
            }
            return false;
        }
        j = j + 1;
    }
    proof {
        assert(origin_shape(o@, i as int));
    }
    true
}

/// Whether `p` is a well-formed resource path.
pub fn path_is_valid(p: &str) -> (b: bool)
    ensures
        b == valid_path(p@),
{
    let v = to_chars(p);
    let n = v.len();
    if n == 0 {
        return false;
    }
    if v[0] != '/' {
        return false;
    }
    let mut j: usize = 0;
    while j < n
        invariant
            0 <= j <= n,
            n == v@.len(),
            v@ == p@,
            forall|j2: int| 0 <= j2 < j ==> #[trigger] p@[j2] != '?' && p@[j2] != '#',
        decreases n - j,
    {
        let c = v[j];
        if c == '?' || c == '#' {
            return false;
        }
        j = j + 1;
    }
    true
}

/// Parses a URL string back into origin, path, and decoded query pairs.
pub fn parse_url(s: &str) -> (r: Option<(String, String, Vec<(String, String)>)>)
    ensures
        match r {
            Some(t) => parse_url_spec(s@) == Some((t.0@, t.1@, pairs_view(t.2@))),
            None => parse_url_spec(s@) is None,
        },
{
    let v = to_chars(s);
    let n = v.len();
    proof {
        assert(v@.subrange(0, n as int) =~= s@);
    }
    let k = match find_range(&v, ':', 0, n) {
        None => {
            return None;
        },
        Some(k) => k,
    };
    if k < 1 || n - k < 3 {
        return None;
    }
    if v[k + 1] != '/' || v[k + 2] != '/' {
        return None;
    }
    proof {
        assert(v@.subrange(k as int + 3, n as int) == s@.subrange(k as int + 3, s@.len() as int));
    }
    let h_abs = match find_range(&v, '/', k + 3, n) {
        None => {
            return None;
        },
        Some(h_abs) => h_abs,
    };
    if h_abs - (k + 3) < 1 {
        return None;
    }
    let pstart = h_abs;
    let origin = from_chars(&sub_chars(&v, 0, pstart));
    let ghost tail = s@.subrange(pstart as int, s@.len() as int);
    match find_range(&v, '?', pstart, n) {
        None => {
            let path = from_chars(&sub_chars(&v, pstart, n));
            let ps: Vec<(String, String)> = Vec::new();
            proof {
                assert(pairs_view(ps@) =~= Seq::<(Seq<char>, Seq<char>)>::empty());
            }
            Some((origin, path, ps))
        },
        Some(q) => {
            let path = from_chars(&sub_chars(&v, pstart, q));
            proof {
                assert(tail.subrange(q - pstart, tail.len() as int) =~= s@.subrange(
                    q as int,
                    s@.len() as int,
                ));
                assert(tail.subrange(0, q - pstart) =~= s@.subrange(pstart as int, q as int));
                assert(tail.subrange(q - pstart + 1, tail.len() as int) =~= s@.subrange(
                    q as int + 1,
                    s@.len() as int,
                ));
            }
            match parse_query_exec(&v, q + 1) {
                None => None,
                Some(ps) => Some((origin, path, ps)),
            }
        },
    }
}

/// Parses the query region `v[a..]` into decoded pairs.
fn parse_query_exec(v: &Vec<char>, a: usize) -> (r: Option<Vec<(String, String)>>)
    requires
        a <= v@.len(),
    ensures
        match r {
            Some(ps) => parse_query(v@.subrange(a as int, v@.len() as int)) == Some(
                pairs_view(ps@),
            ),
            None => parse_query(v@.subrange(a as int, v@.len() as int)) is None,
        },
{
    let qs = sub_chars(v, a, v.len());
    let segs = split_all(&qs, '&');
    let ghost sv = views_of(segs@);
    let mut out: Vec<(String, String)> = Vec::new();
    let mut i: usize = 0;
    proof {
        assert(sv.subrange(0, sv.len() as int) =~= sv);
        match pairs_of(sv) {
            Some(t) => {
                assert(Seq::<(Seq<char>, Seq<char>)>::empty() + t =~= t);
                assert(pairs_view(out@) =~= Seq::<(Seq<char>, Seq<char>)>::empty());
            },
            None => {},
        }
    }
    while i < segs.len()
        invariant
            0 <= i <= segs@.len(),
            a <= v@.len(),
            qs@ == v@.subrange(a as int, v@.len() as int),
            sv == views_of(segs@),
            sv == split_on(qs@, '&'),
            pairs_of(sv) == match pairs_of(sv.subrange(i as int, sv.len() as int)) {
                Some(t) => Some(pairs_view(out@) + t),
                None => None::<Seq<(Seq<char>, Seq<char>)>>,
            },
        decreases segs@.len() - i,
    {
        let ghost rem = sv.subrange(i as int, sv.len() as int);
        proof {
            assert(rem[0] == segs@[i as int]@);
            assert(rem.drop_first() =~= sv.subrange(i as int + 1, sv.len() as int));
        }
        let ghost out_old = pairs_view(out@);
        match parse_pair_exec(&segs[i]) {
            None => {
                proof {
                    assert(rem.len() >= 1);
                    assert(pairs_of(rem) is None);
                    assert(pairs_of(sv) is None);
                    assert(qs@ == v@.subrange(a as int, v@.len() as int));
                }
                return None;
            },
            Some(p) => {
                let ghost pg = (p.0@, p.1@);
                out.push(p);
                proof {
                    assert(pairs_view(out@) =~= out_old.push(pg));
                    let rem2 = sv.subrange(i as int + 1, sv.len() as int);
                    match pairs_of(rem2) {
                        Some(t) => {
                            assert(out_old + (seq![pg] + t) =~= pairs_view(out@) + t);
                        },
                        None => {},
                    }
                }
            },
        }
        i = i + 1;
    }
    proof {
        assert(sv.subrange(i as int, sv.len() as int) =~= Seq::<Seq<char>>::empty());
        match pairs_of(sv) {
            Some(t) => {
                assert(pairs_view(out@) + Seq::<(Seq<char>, Seq<char>)>::empty() =~= pairs_view(
                    out@,
                ));
            },
            None => {},
        }
    }
    Some(out)
}

/// Parses one `key=value` segment.
fn parse_pair_exec(t: &Vec<char>) -> (r: Option<(String, String)>)
    ensures
        match r {
            Some(p) => parse_pair(t@) == Some((p.0@, p.1@)),
            None => parse_pair(t@) is None,
        },
{
    proof {
        assert(t@.subrange(0, t@.len() as int) =~= t@);
    }
    match find_range(t, '=', 0, t.len()) {
        None => None,
        Some(e) => {
            let kpart = sub_chars(t, 0, e);
            let vpart = sub_chars(t, e + 1, t.len());
            match decode_chars(&kpart) {
                None => None,
                Some(kd) => match decode_chars(&vpart) {
                    None => None,
                    Some(vd) => Some((kd, vd)),
                },
            }
        },
    }
}

} // verus!
