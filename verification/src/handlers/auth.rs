//! Sessions: the cookie that login sets and logout clears, and reading the
//! logged-in user's id back from a request's `Cookie` header.
use vstd::prelude::*;
use crate::error::AppError;
use crate::models::User;
use crate::number::{i32_text, lemma_parse_i32_text, parse_i32, parse_i32_range, push_i32};
use crate::text::{
    chars_of, find_char, first_index, lemma_first_index_at, lemma_segments_step,
    lemma_trim_len, lemma_trim_unchanged, range_equals, segments, trim, trim_range, ws_prefix_len,
};

verus! {

#[derive(Debug, PartialEq, Eq)]
pub struct LoginRequest {
    pub user_id: i32,
}

/// The name of the session cookie.
pub open spec fn cookie_name() -> Seq<char> {
    "kemenkeu_session"@
}

/// The session id that one `key=value` piece of a `Cookie` header names.
/// Read `lenient`ly (as login and `/me` do), the key and the value are
/// trimmed; otherwise (as the budget and summary pages do) only the piece is.
pub open spec fn piece_session(p: Seq<char>, lenient: bool) -> Option<i32> {
    let t = trim(p);
    match first_index(t, '=') {
        None => None,
        Some(i) => {
            let key = if lenient { trim(t.take(i)) } else { t.take(i) };
            let val = if lenient { trim(t.skip(i + 1)) } else { t.skip(i + 1) };
            if key == cookie_name() {
                parse_i32(val)
            } else {
                None
            }
        },
    }
}

/// The first session id that the pieces name.
pub open spec fn first_session(pieces: Seq<Seq<char>>, lenient: bool) -> Option<i32>
    decreases pieces.len(),
{
    if pieces.len() == 0 {
        None
    } else {
        match piece_session(pieces[0], lenient) {
            Some(v) => Some(v),
            None => first_session(pieces.drop_first(), lenient),
        }
    }
}

/// The session id that a `Cookie` header carries: the first `;`-separated
/// piece that names the session cookie with a number as its value.
pub open spec fn cookie_session(header: Seq<char>, lenient: bool) -> Option<i32> {
    first_session(segments(header, ';'), lenient)
}

/// The cookie that login sets for `id`.
pub open spec fn login_cookie_text(id: i32) -> Seq<char> {
    "kemenkeu_session="@ + i32_text(id) + "; Path=/; Max-Age=604800; SameSite=Lax"@
}

/// The cookie that logout sets.
pub open spec fn logout_cookie_text() -> Seq<char> {
    "kemenkeu_session=; Path=/; Max-Age=0; SameSite=Lax"@
}

/// The session id in `v[lo..hi]`, one piece of a `Cookie` header.
fn piece_session_exec(v: &Vec<char>, lo: usize, hi: usize, lenient: bool, name: &Vec<char>) -> (r:
    Option<i32>)
    requires
        lo <= hi <= v.len(),
        name@ == cookie_name(),
    ensures
        r == piece_session(v@.subrange(lo as int, hi as int), lenient),
{
    let (a, b) = trim_range(v, lo, hi);
    let ghost t = v@.subrange(a as int, b as int);
    let e = find_char(v, '=', a, b);
    assert forall|k: int| 0 <= k < e - a implies t[k] != '=' by {
        assert(t[k] == v@[a + k]);
    }
    proof {
        lemma_first_index_at(t, '=', e - a);
    }
    if e == b {
        return None;
    }
    assert(t.take(e - a) =~= v@.subrange(a as int, e as int));
    assert(t.skip(e - a + 1) =~= v@.subrange(e + 1, b as int));
    let (ka, kb) = if lenient { trim_range(v, a, e) } else { (a, e) };
    if !range_equals(v, ka, kb, name) {
        return None;
    }
    let (va, vb) = if lenient { trim_range(v, e + 1, b) } else { (e + 1, b) };
    parse_i32_range(v, va, vb)
}

/// The session id in a `Cookie` header's characters.
fn cookie_session_exec(v: &Vec<char>, lenient: bool) -> (r: Option<i32>)
    ensures
        r == cookie_session(v@, lenient),
{
    let name = chars_of("kemenkeu_session");
    let n = v.len();
    let mut pos: usize = 0;
    assert(v@.skip(0) =~= v@);
    loop
        invariant
            pos <= n == v.len(),
            name@ == cookie_name(),
            first_session(segments(v@, ';'), lenient) == first_session(
                segments(v@.skip(pos as int), ';'),
                lenient,
            ),
        decreases n - pos,
    {
        let end = find_char(v, ';', pos, n);
        proof {
            lemma_segments_step(v@, ';', pos as int, end as int);
        }
        let ghost rest = if end < n { segments(v@.skip(end + 1), ';') } else { Seq::empty() };
        let ghost pieces = seq![v@.subrange(pos as int, end as int)] + rest;
        assert(pieces.drop_first() =~= rest);
        assert(pieces[0] == v@.subrange(pos as int, end as int));
        let r = piece_session_exec(v, pos, end, lenient, &name);
        if r.is_some() {
            return r;
        }
        if end == n {
            assert(first_session(rest, lenient) is None);
            return None;
        }
        pos = end + 1;
    }
}

/// The logged-in user's id, read from the `Cookie` header (if any) the way
/// login and `/me` read it.
pub fn extract_session_id(cookie: Option<&str>) -> (r: Option<i32>)
    ensures
        r == match cookie {
            Some(c) => cookie_session(c@, true),
            None => None,
        },
{
    match cookie {
        Some(c) => {
            let v = chars_of(c);
            cookie_session_exec(&v, true)
        },
        None => None,
    }
}

/// The logged-in user's id, read from the `Cookie` header (if any) the way
/// the budget and summary pages read it; without one, the request is refused.
pub fn session_id(cookie: Option<&str>) -> (r: Result<i32, AppError>)
    ensures
        match cookie {
            Some(c) => match cookie_session(c@, false) {
                Some(id) => r == Ok::<i32, AppError>(id),
                None => r matches Err(e) && e.is_unauthorized("not logged in"@),
            },
            None => r matches Err(e) && e.is_unauthorized("not logged in"@),
        },
{
    let found = match cookie {
        Some(c) => {
            let v = chars_of(c);
            cookie_session_exec(&v, false)
        },
        None => None,
    };
    match found {
        Some(id) => Ok(id),
        None => Err(AppError::unauthorized("not logged in")),
    }
}

/// The id of the user a request comes from, read the way the summary page
/// reads it, if the request names one; the summary is open to requests
/// that name none.
pub fn optional_session(cookie: Option<&str>) -> (r: Option<i32>)
    ensures
        r == match cookie {
            Some(c) => cookie_session(c@, false),
            None => None,
        },
{
    match cookie {
        Some(c) => {
            let v = chars_of(c);
            cookie_session_exec(&v, false)
        },
        None => None,
    }
}

/// The logged-in user's id for `/me`; without a session the request is refused.
pub fn me_session(cookie: Option<&str>) -> (r: Result<i32, AppError>)
    ensures
        match cookie {
            Some(c) => match cookie_session(c@, true) {
                Some(id) => r == Ok::<i32, AppError>(id),
                None => r matches Err(e) && e.is_unauthorized("not logged in"@),
            },
            None => r matches Err(e) && e.is_unauthorized("not logged in"@),
        },
{
    match extract_session_id(cookie) {
        Some(id) => Ok(id),
        None => Err(AppError::unauthorized("not logged in")),
    }
}

/// The `Set-Cookie` value that logs in the user with id `user_id`.
pub fn login_cookie(user_id: i32) -> (c: String)
    ensures
        c@ == login_cookie_text(user_id),
{
    let mut c = String::from_str("kemenkeu_session=");
    push_i32(&mut c, user_id);
    c.append("; Path=/; Max-Age=604800; SameSite=Lax");
    c
}

/// The `Set-Cookie` value that logs out.
pub fn logout_cookie() -> (c: String)
    ensures
        c@ == logout_cookie_text(),
{
    String::from_str("kemenkeu_session=; Path=/; Max-Age=0; SameSite=Lax")
}

/// The answer to a login for the user found (if any): the user and the
/// cookie that logs them in, or "user not found".
pub fn login_outcome(user: Option<User>) -> (r: Result<(User, String), AppError>)
    ensures
        match user {
            Some(u) => r matches Ok((u2, c)) && u2 == u && c@ == login_cookie_text(u.id),
            None => r matches Err(e) && e.is_not_found("user not found"@),
        },
{
    match user {
        Some(u) => {
            let c = login_cookie(u.id);
            Ok((u, c))
        },
        None => Err(AppError::not_found("user not found")),
    }
}

/// A piece of at most 16 characters cannot name the session cookie: its key
/// is shorter than the cookie's name.
proof fn lemma_short_piece(p: Seq<char>, lenient: bool)
    requires
        p.len() <= 16,
    ensures
        piece_session(p, lenient) is None,
{
    let t = trim(p);
    lemma_trim_len(p);
    crate::text::lemma_first_index(t, '=');
    if let Some(i) = first_index(t, '=') {
        lemma_trim_len(t.take(i));
        assert(cookie_name().len() == 16) by {
            reveal_strlit("kemenkeu_session");
        }
    }
}

/// The session pair `kemenkeu_session=<id>`, as a browser sends it back.
pub open spec fn session_pair_text(id: i32) -> Seq<char> {
    "kemenkeu_session="@ + i32_text(id)
}

/// The pair `kemenkeu_session=<id>` names `id`, whichever way it is read.
proof fn lemma_session_pair_piece(id: i32, lenient: bool)
    ensures
        piece_session(session_pair_text(id), lenient) == Some(id),
        forall|k: int| 0 <= k < session_pair_text(id).len() ==> session_pair_text(id)[k] != ';',
{
    reveal_strlit("kemenkeu_session=");
    reveal_strlit("kemenkeu_session");
    let a = "kemenkeu_session="@;
    let t = i32_text(id);
    let p = session_pair_text(id);
    lemma_parse_i32_text(id);
    assert forall|k: int| 0 <= k < p.len() implies p[k] != ';' by {
        if k < a.len() {
            assert(p[k] == a[k]);
        } else {
            assert(p[k] == t[k - a.len()]);
        }
    }
    // the pair is already trimmed
    assert(p[0] == 'k');
    assert(p.last() == t.last());
    lemma_trim_unchanged(p);
    // its key ends at the first '='
    assert forall|k: int| 0 <= k < 16 implies p[k] != '=' by {
        assert(p[k] == a[k]);
    }
    assert(p[16] == '=');
    lemma_first_index_at(p, '=', 16);
    let key = p.take(16);
    assert(key =~= cookie_name());
    lemma_trim_unchanged(key);
    let val = p.skip(17);
    assert(val =~= t);
    assert(val[0] == t[0]);
    lemma_trim_unchanged(val);
}

/// A `Cookie` header holding the session pair that login set names the
/// logged-in user, whichever way the header is read.
pub proof fn lemma_session_pair_read_back(id: i32, lenient: bool)
    ensures
        cookie_session(session_pair_text(id), lenient) == Some(id),
{
    lemma_session_pair_piece(id, lenient);
    let h = session_pair_text(id);
    lemma_segments_step(h, ';', 0, h.len() as int);
    assert(h.skip(0) =~= h);
    assert(h.subrange(0, h.len() as int) =~= h);
    assert(segments(h, ';')[0] == h);
}

/// Splitting at a separator placed between two texts splits each of them.
proof fn lemma_segments_concat(a: Seq<char>, b: Seq<char>, sep: char)
    ensures
        segments(a + seq![sep] + b, sep) == segments(a, sep) + segments(b, sep),
    decreases a.len(),
{
    let h = a + seq![sep] + b;
    crate::text::lemma_first_index(a, sep);
    match first_index(a, sep) {
        Some(i) => {
            assert forall|k: int| 0 <= k < i implies h[k] != sep by {
                assert(h[k] == a[k]);
            }
            assert(h[i] == a[i]);
            lemma_first_index_at(h, sep, i);
            assert(h.take(i) =~= a.take(i));
            assert(h.skip(i + 1) =~= a.skip(i + 1) + seq![sep] + b);
            lemma_segments_concat(a.skip(i + 1), b, sep);
            assert(segments(h, sep) =~= segments(a, sep) + segments(b, sep));
        },
        None => {
            assert forall|k: int| 0 <= k < a.len() implies h[k] != sep by {
                assert(h[k] == a[k]);
            }
            assert(h[a.len() as int] == sep);
            lemma_first_index_at(h, sep, a.len() as int);
            assert(h.take(a.len() as int) =~= a);
            assert(h.skip((a.len() + 1) as int) =~= b);
            assert(segments(h, sep) =~= segments(a, sep) + segments(b, sep));
        },
    }
}

/// The first session among two runs of pieces is the first one's, if it
/// names one, else the second one's.
proof fn lemma_first_session_concat(x: Seq<Seq<char>>, y: Seq<Seq<char>>, lenient: bool)
    ensures
        first_session(x + y, lenient) == match first_session(x, lenient) {
            Some(v) => Some(v),
            None => first_session(y, lenient),
        },
    decreases x.len(),
{
    if x.len() == 0 {
        assert(x + y =~= y);
    } else {
        assert((x + y)[0] == x[0]);
        assert((x + y).drop_first() =~= x.drop_first() + y);
        lemma_first_session_concat(x.drop_first(), y, lenient);
    }
}

/// However many other cookies come first, a header that ends with the
/// session pair names the logged-in user, whichever way it is read: other
/// cookies that name no session do not hide it.
pub proof fn lemma_session_after_other_cookies(prefix: Seq<char>, id: i32, lenient: bool)
    requires
        first_session(segments(prefix, ';'), lenient) is None,
    ensures
        cookie_session(prefix + "; "@ + session_pair_text(id), lenient) == Some(id),
{
    reveal_strlit("; ");
    let p = session_pair_text(id);
    let q = seq![' '] + p;
    let h = prefix + "; "@ + p;
    assert(h =~= prefix + seq![';'] + q);
    lemma_segments_concat(prefix, q, ';');
    lemma_session_pair_piece(id, lenient);
    // the last piece is the pair behind one space
    assert forall|k: int| 0 <= k < q.len() implies q[k] != ';' by {
        if k > 0 {
            assert(q[k] == p[k - 1]);
        }
    }
    lemma_segments_step(q, ';', 0, q.len() as int);
    assert(q.skip(0) =~= q);
    assert(q.subrange(0, q.len() as int) =~= q);
    let last = segments(q, ';');
    assert(last[0] == q);
    assert(last.drop_first() =~= Seq::<Seq<char>>::empty());
    assert(first_session(Seq::<Seq<char>>::empty(), lenient) is None);
    // trimming the last piece gives the pair
    reveal_strlit("kemenkeu_session=");
    assert(p[0] == 'k');
    assert(q.drop_first() =~= p);
    assert(ws_prefix_len(p) == 0);
    assert(ws_prefix_len(q) == 1);
    assert(q.skip(1) =~= p);
    lemma_trim_unchanged(p);
    assert(p.skip(0) =~= p);
    assert(trim(q) == trim(p));
    assert(piece_session(q, lenient) == piece_session(p, lenient));
    lemma_first_session_concat(segments(prefix, ';'), last, lenient);
}

/// Reading the cookie that login sets gives back the id it was set for,
/// whichever way the header is read.
pub proof fn lemma_login_cookie_session(id: i32, lenient: bool)
    ensures
        cookie_session(login_cookie_text(id), lenient) == Some(id),
{
    reveal_strlit("; Path=/; Max-Age=604800; SameSite=Lax");
    lemma_session_pair_piece(id, lenient);
    let p = session_pair_text(id);
    let b = "; Path=/; Max-Age=604800; SameSite=Lax"@;
    let h = login_cookie_text(id);
    assert(h =~= p + b);
    let j: int = p.len() as int;
    assert forall|k: int| 0 <= k < j implies h[k] != ';' by {
        assert(h[k] == p[k]);
    }
    assert(h[j] == b[0]);
    lemma_segments_step(h, ';', 0, j);
    assert(h.skip(0) =~= h);
    assert(h.subrange(0, j) =~= p);
    assert(segments(h, ';')[0] == p);
}

/// The cookie that logout sets names no session.
pub proof fn lemma_logout_cookie_session(lenient: bool)
    ensures
        cookie_session(logout_cookie_text(), lenient) is None,
{
    reveal_strlit("kemenkeu_session=; Path=/; Max-Age=0; SameSite=Lax");
    reveal_strlit("kemenkeu_session");
    let h = logout_cookie_text();
    assert(h.len() == 50);
    assert(h.skip(0) =~= h);
    lemma_segments_step(h, ';', 0, 17);
    lemma_segments_step(h, ';', 18, 25);
    lemma_segments_step(h, ';', 26, 36);
    lemma_segments_step(h, ';', 37, 50);
    let p0 = h.subrange(0, 17);
    let s1 = segments(h.skip(18), ';');
    let s2 = segments(h.skip(26), ';');
    let s3 = segments(h.skip(37), ';');
    lemma_short_piece(h.subrange(18, 25), lenient);
    lemma_short_piece(h.subrange(26, 36), lenient);
    lemma_short_piece(h.subrange(37, 50), lenient);
    assert((seq![h.subrange(37, 50)]).drop_first() =~= Seq::<Seq<char>>::empty());
    assert(s3[0] == h.subrange(37, 50));
    assert(s3.drop_first() =~= Seq::<Seq<char>>::empty());
    assert(first_session(Seq::<Seq<char>>::empty(), lenient) is None);
    assert(first_session(s3, lenient) is None);
    assert((seq![h.subrange(26, 36)] + s3).drop_first() =~= s3);
    assert(first_session(s2, lenient) is None);
    assert((seq![h.subrange(18, 25)] + s2).drop_first() =~= s2);
    assert(first_session(s1, lenient) is None);
    // the first piece names the cookie but holds no number
    assert(p0[0] == 'k' && p0.last() == '=');
    lemma_trim_unchanged(p0);
    assert forall|k: int| 0 <= k < 16 implies p0[k] != '=' by {}
    lemma_first_index_at(p0, '=', 16);
    let val = p0.skip(17);
    assert(val.len() == 0);
    assert(trim(val).len() == 0) by {
        lemma_trim_len(val);
    }
    assert((seq![p0] + s1).drop_first() =~= s1);
}

} // verus!
