//! Properties that hold across the SDK's functions.

use vstd::prelude::*;
use vstd::utf8::{encode_utf8, is_ascii_chars};

use crate::api::{api_error, base_url_of, is_success};
use crate::client::{
    after, before, cookie_in, form_in, holds, pct_decode, pct_text, query_param_of, SESSION_COOKIE,
    TOKEN_PARAM,
};
use crate::errors::{ErrorKind, StackureError};
use crate::middleware::{
    accepts_html_of, cookie_header_of, holds_one_of, keep_pair, kept_pairs, rejection_of,
    session_found_step, step_taken, verdict, wants_form_token_of, AuthAction, AuthEvent,
    AuthStage, Reply,
};
use crate::request::{header_or_empty, header_text, header_views, RequestHead};
use crate::transport::{retry_wanted, AttemptKind};
use crate::validation::{dash_at, is_hex, uuid_shaped};
use crate::text::{
    contains_seq, first_index, is_ws, lemma_first_index, lemma_first_index_unique, occurs, seq_join, strip_char,
    strip_char_end, trim, trim_start,
};
use crate::types::{Session, VerifyError, VerifyResult};

verus! {

/// Searching past a prefix that lacks `x` adds the prefix's length.
pub proof fn lemma_first_index_after_prefix<A>(p: Seq<A>, s: Seq<A>, x: A)
    requires
        !occurs(p, x),
    ensures
        first_index(p + s, x) == p.len() + first_index(s, x),
{
    lemma_first_index(s, x);
    let k = p.len() + first_index(s, x);
    let t = p + s;
    assert forall|j: int| 0 <= j < k implies t[j] != x by {
        if j < p.len() {
            assert(t[j] == p[j]);
        } else {
            assert(t[j] == s[j - p.len()]);
        }
    }
    if k < t.len() {
        assert(t[k] == s[first_index(s, x)]);
    }
    lemma_first_index_unique(t, x, k);
}

/// A verification's result is consistent: it is authenticated exactly when
/// it carries no error, an authenticated result carries the user, the only
/// codes are 401, 403 and 500, a 403 still carries the user, and only a 401
/// carries a sign-in URL.
pub proof fn law_verify_result_shape(
    outcome: Result<Session, StackureError>,
    wanted: Seq<Seq<char>>,
    r: VerifyResult,
)
    requires
        verdict(outcome, wanted, r),
    ensures
        r.authenticated <==> r.error is None,
        r.authenticated ==> r.user is Some,
        r.error matches Some(e) ==> (e.code == 401 || e.code == 403 || e.code == 500),
        r.error matches Some(e) ==> (e.code == 403 ==> r.user is Some),
        r.error matches Some(e) ==> (e.code != 401 ==> e.sign_in_url@.len() == 0),
{
}

/// A signed-in user passes when the route wants no permission, and passes
/// with any permission list that names one the user holds.
pub proof fn law_verify_grants_held_permission(
    s: Session,
    wanted: Seq<Seq<char>>,
    r: VerifyResult,
)
    requires
        verdict(Ok(s), wanted, r),
        s.authenticated,
        s.user is Some,
        wanted.len() == 0 || holds_one_of(s.user->0.user_permissions@, wanted),
    ensures
        r.authenticated,
        r.user == s.user,
{
}

/// An authenticated result means the user holds a wanted permission, when
/// any is wanted.
pub proof fn law_verify_authenticated_means_permitted(
    outcome: Result<Session, StackureError>,
    wanted: Seq<Seq<char>>,
    r: VerifyResult,
)
    requires
        verdict(outcome, wanted, r),
        r.authenticated,
        wanted.len() > 0,
    ensures
        r.user matches Some(u) && holds_one_of(u.user_permissions@, wanted),
{
}

/// A token fit to be stored in a cookie: no `;`, nothing that trimming or
/// quote-stripping would remove.
pub open spec fn cookie_safe(token: Seq<char>) -> bool {
    &&& !occurs(token, ';')
    &&& trim(token) == token
    &&& strip_char(token, '"') == token
}

/// The session cookie that the handoff sets is read back: the `name=value`
/// pair a browser keeps from the `Set-Cookie` value, followed by any other
/// cookies, gives the same token to `cookie`.
pub proof fn law_handoff_cookie_read_back(
    token: Seq<char>,
    secure: bool,
    max_age: Option<i32>,
    rest: Seq<char>,
)
    requires
        cookie_safe(token),
        rest.len() == 0 || rest[0] == ';',
    ensures
        before(cookie_header_of(token, secure, max_age), ';') == SESSION_COOKIE@ + "="@ + token,
        cookie_in(before(cookie_header_of(token, secure, max_age), ';') + rest, SESSION_COOKIE@)
            == token,
{
    reveal_strlit("session");
    reveal_strlit("=");
    reveal_strlit("; Path=/; HttpOnly; SameSite=Lax");
    let pair = SESSION_COOKIE@ + "="@ + token;
    assert(!occurs(SESSION_COOKIE@ + "="@, ';')) by {
        assert(SESSION_COOKIE@ + "="@ =~= seq!['s', 'e', 's', 's', 'i', 'o', 'n', '=']);
    }
    assert(!occurs(pair, ';')) by {
        assert forall|i: int| 0 <= i < pair.len() implies pair[i] != ';' by {
            if i < 8 {
                assert(pair[i] == (SESSION_COOKIE@ + "="@)[i]);
            } else {
                assert(pair[i] == token[i - 8]);
            }
        }
    }
    let header = cookie_header_of(token, secure, max_age);
    let tail = header.subrange(pair.len() as int, header.len() as int);
    assert(header =~= pair + tail);
    assert(tail[0] == ';');
    lemma_first_index_after_prefix(pair, tail, ';');
    lemma_first_index_unique(tail, ';', 0);
    assert(before(header, ';') =~= pair);
    // Reading it back.
    let s = pair + rest;
    lemma_first_index_after_prefix(pair, rest, ';');
    lemma_first_index(rest, ';');
    if rest.len() > 0 {
        lemma_first_index_unique(rest, ';', 0);
    }
    assert(before(s, ';') =~= pair);
    let name = SESSION_COOKIE@;
    assert(!occurs(name, '=')) by {
        assert(name =~= seq!['s', 'e', 's', 's', 'i', 'o', 'n']);
    }
    lemma_first_index_after_prefix(name, "="@ + token, '=');
    lemma_first_index_unique("="@ + token, '=', 0);
    assert(pair =~= name + ("="@ + token));
    assert(first_index(pair, '=') == 7);
    assert(before(pair, '=') =~= name);
    assert(after(pair, '=') =~= token);
    assert(trim(name) == name) by {
        assert(!is_ws(name[0]));
        assert(!is_ws(name.last()));
        assert(trim_start(name) == name);
    }
}

/// Form decoding leaves bytes without `%` or `+` unchanged.
pub proof fn lemma_pct_decode_plain(b: Seq<u8>)
    requires
        forall|i: int| 0 <= i < b.len() ==> #[trigger] b[i] != 0x25 && b[i] != 0x2b,
    ensures
        pct_decode(b) == b,
    decreases b.len(),
{
    if b.len() > 0 {
        lemma_pct_decode_plain(b.drop_first());
        assert(seq![b[0]] + b.drop_first() =~= b);
    }
}

/// Form decoding leaves ASCII text without `%` or `+` unchanged.
pub proof fn lemma_pct_text_plain(s: Seq<char>)
    requires
        is_ascii_chars(s),
        !occurs(s, '%'),
        !occurs(s, '+'),
    ensures
        pct_text(s) == s,
{
    let b = encode_utf8(s);
    vstd::utf8::is_ascii_chars_encode_utf8(s);
    assert forall|i: int| 0 <= i < b.len() implies #[trigger] b[i] != 0x25 && b[i] != 0x2b by {
        assert(s[i] as u8 == b[i]);
        assert(s[i] != '%' && s[i] != '+');
        assert('\0' <= s[i] <= '\u{7f}');
    }
    lemma_pct_decode_plain(b);
    vstd::utf8::encode_utf8_valid_utf8(s);
    vstd::utf8::encode_utf8_decode_utf8(s);
}

/// The handoff form field is read back: a body that starts with
/// `session_token=<token>`, followed by more pairs, gives `<token>` when the
/// token is ASCII without `&`, `%` or `+`.
pub proof fn law_form_token_read_back(token: Seq<char>, rest: Seq<char>)
    requires
        is_ascii_chars(token),
        !occurs(token, '&'),
        !occurs(token, '%'),
        !occurs(token, '+'),
        rest.len() == 0 || rest[0] == '&',
    ensures
        form_in(TOKEN_PARAM@ + "="@ + token + rest, TOKEN_PARAM@) == token,
{
    reveal_strlit("session_token");
    reveal_strlit("=");
    let name = TOKEN_PARAM@;
    let lit = seq!['s', 'e', 's', 's', 'i', 'o', 'n', '_', 't', 'o', 'k', 'e', 'n'];
    assert(name =~= lit);
    let pair = name + "="@ + token;
    assert(!occurs(name + "="@, '&')) by {
        assert(name + "="@ =~= lit.push('='));
    }
    assert(!occurs(pair, '&')) by {
        assert forall|i: int| 0 <= i < pair.len() implies pair[i] != '&' by {
            if i < 14 {
                assert(pair[i] == (name + "="@)[i]);
            } else {
                assert(pair[i] == token[i - 14]);
            }
        }
    }
    let s = pair + rest;
    lemma_first_index_after_prefix(pair, rest, '&');
    lemma_first_index(rest, '&');
    if rest.len() > 0 {
        lemma_first_index_unique(rest, '&', 0);
    }
    assert(before(s, '&') =~= pair);
    assert(!occurs(name, '=')) by {
        assert forall|i: int| 0 <= i < name.len() implies name[i] != '=' by {
            assert(name[i] == lit[i]);
        }
    }
    lemma_first_index_after_prefix(name, "="@ + token, '=');
    lemma_first_index_unique("="@ + token, '=', 0);
    assert(pair =~= name + ("="@ + token));
    assert(before(pair, '=') =~= name);
    assert(after(pair, '=') =~= token);
    assert(is_ascii_chars(name) && !occurs(name, '%') && !occurs(name, '+')) by {
        assert forall|i: int| 0 <= i < name.len() implies name[i] == lit[i] by {}
    }
    lemma_pct_text_plain(name);
    lemma_pct_text_plain(token);
}

/// Every pair the clean-up keeps is non-empty and not named
/// `session_token`.
pub proof fn law_clean_url_drops_token_pairs(q: Seq<char>)
    ensures
        forall|i: int| 0 <= i < kept_pairs(q).len() ==> keep_pair(#[trigger] kept_pairs(q)[i]),
    decreases q.len(),
{
    if holds(q, '&') {
        lemma_first_index(q, '&');
        law_clean_url_drops_token_pairs(after(q, '&'));
    }
    let p = before(q, '&');
    let rest = if holds(q, '&') {
        kept_pairs(after(q, '&'))
    } else {
        Seq::empty()
    };
    if keep_pair(p) {
        assert forall|i: int| 0 <= i < kept_pairs(q).len() implies keep_pair(
            #[trigger] kept_pairs(q)[i],
        ) by {
            if i > 0 {
                assert(kept_pairs(q)[i] == rest[i - 1]);
            }
        }
    }
}

/// A configured API host never ends in `/` unless it is empty.
pub proof fn law_base_url_has_no_trailing_slash(setting: Option<Seq<char>>)
    ensures
        base_url_of(setting).len() == 0 || base_url_of(setting).last() != '/',
{
    reveal_strlit("https://stackure.com");
    match setting {
        Some(v) => {
            if v.len() > 0 {
                lemma_strip_end(v);
            }
        },
        None => {},
    }
}

proof fn lemma_strip_end(v: Seq<char>)
    ensures
        strip_char_end(v, '/').len() == 0 || strip_char_end(v, '/').last() != '/',
    decreases v.len(),
{
    if v.len() > 0 && v.last() == '/' {
        lemma_strip_end(v.drop_last());
    }
}

/// Text that form decoding leaves unchanged: ASCII without `%` or `+`.
pub open spec fn plain(s: Seq<char>) -> bool {
    is_ascii_chars(s) && !occurs(s, '%') && !occurs(s, '+')
}

proof fn lemma_plain_sub(s: Seq<char>, lo: int, hi: int)
    requires
        plain(s),
        0 <= lo <= hi <= s.len(),
    ensures
        plain(s.subrange(lo, hi)),
{
    let t = s.subrange(lo, hi);
    assert forall|i: int| 0 <= i < t.len() implies t[i] == s[i + lo] by {}
    assert(is_ascii_chars(t)) by {
        assert forall|i: int| 0 <= i < t.len() implies '\0' <= #[trigger] t[i] <= '\u{7f}' by {
            assert(t[i] == s[i + lo]);
        }
    }
    if occurs(t, '%') {
        let i = choose|i: int| 0 <= i < t.len() && t[i] == '%';
        assert(s[i + lo] == '%');
    }
    if occurs(t, '+') {
        let i = choose|i: int| 0 <= i < t.len() && t[i] == '+';
        assert(s[i + lo] == '+');
    }
}

/// Joining a list whose first element is followed by more.
proof fn lemma_join_front(ps: Seq<Seq<char>>, sep: Seq<char>)
    requires
        ps.len() >= 2,
    ensures
        seq_join(ps, sep) == ps[0] + sep + seq_join(ps.drop_first(), sep),
    decreases ps.len(),
{
    if ps.len() == 2 {
        assert(ps.drop_last() =~= seq![ps[0]]);
        assert(ps.drop_first() =~= seq![ps[1]]);
        assert(seq_join(ps.drop_last(), sep) == ps[0]);
        assert(seq_join(ps.drop_first(), sep) == ps[1]);
        assert(seq_join(ps, sep) == seq_join(ps.drop_last(), sep) + sep + ps.last());
    } else {
        let d = ps.drop_last();
        let e = ps.drop_first();
        lemma_join_front(d, sep);
        assert(d.drop_first() =~= e.drop_last());
        assert(e.last() == ps.last());
        assert(d[0] == ps[0]);
        assert(seq_join(e, sep) == seq_join(e.drop_last(), sep) + sep + e.last());
        assert(seq_join(ps, sep) == seq_join(d, sep) + sep + ps.last());
        assert(seq_join(ps, sep) =~= ps[0] + sep + seq_join(e, sep));
    }
}

/// A pair that the form lookup for `name` would take.
pub open spec fn matches_name(p: Seq<char>, name: Seq<char>) -> bool {
    holds(p, '=') && pct_text(before(p, '=')) == name
}

/// Joined pairs none of which is named `name` hold no value for `name`.
proof fn lemma_form_in_joined(ps: Seq<Seq<char>>, name: Seq<char>)
    requires
        forall|i: int| 0 <= i < ps.len() ==> !occurs(#[trigger] ps[i], '&'),
        forall|i: int| 0 <= i < ps.len() ==> !matches_name(#[trigger] ps[i], name),
    ensures
        form_in(seq_join(ps, "&"@), name).len() == 0,
    decreases ps.len(),
{
    reveal_strlit("&");
    if ps.len() == 0 {
        let s = seq_join(ps, "&"@);
        assert(s =~= Seq::<char>::empty());
        assert(first_index(s, '&') == 0);
        assert(before(s, '&') =~= Seq::<char>::empty());
        assert(first_index(before(s, '&'), '=') == 0);
    } else if ps.len() == 1 {
        let s = seq_join(ps, "&"@);
        assert(s == ps[0]);
        assert(!occurs(ps[0], '&'));
        lemma_first_index(s, '&');
        assert(before(s, '&') =~= s);
        assert(!matches_name(ps[0], name));
    } else {
        lemma_join_front(ps, "&"@);
        let rest = seq_join(ps.drop_first(), "&"@);
        let s = seq_join(ps, "&"@);
        assert(!occurs(ps[0], '&'));
        assert(s =~= ps[0] + ("&"@ + rest));
        lemma_first_index_after_prefix(ps[0], "&"@ + rest, '&');
        lemma_first_index_unique("&"@ + rest, '&', 0);
        assert(first_index(s, '&') == ps[0].len());
        assert(before(s, '&') =~= ps[0]);
        assert(after(s, '&') =~= rest);
        assert(!matches_name(ps[0], name));
        assert forall|i: int| 0 <= i < ps.drop_first().len() implies !occurs(
            #[trigger] ps.drop_first()[i],
            '&',
        ) && !matches_name(ps.drop_first()[i], name) by {
            assert(ps.drop_first()[i] == ps[i + 1]);
        }
        lemma_form_in_joined(ps.drop_first(), name);
    }
}

/// The pairs the clean-up keeps from plain text are plain and hold no `&`.
proof fn lemma_kept_pairs_plain(q: Seq<char>)
    requires
        plain(q),
    ensures
        forall|i: int|
            0 <= i < kept_pairs(q).len() ==> plain(#[trigger] kept_pairs(q)[i]) && !occurs(
                kept_pairs(q)[i],
                '&',
            ),
    decreases q.len(),
{
    lemma_first_index(q, '&');
    let p = before(q, '&');
    lemma_plain_sub(q, 0, first_index(q, '&'));
    assert(p == q.subrange(0, first_index(q, '&')));
    assert(!occurs(p, '&')) by {
        if occurs(p, '&') {
            let i = choose|i: int| 0 <= i < p.len() && p[i] == '&';
            assert(q[i] == '&');
        }
    }
    let rest = if holds(q, '&') {
        lemma_plain_sub(q, first_index(q, '&') + 1, q.len() as int);
        assert(after(q, '&') == q.subrange(first_index(q, '&') + 1, q.len() as int));
        lemma_kept_pairs_plain(after(q, '&'));
        kept_pairs(after(q, '&'))
    } else {
        Seq::empty()
    };
    assert forall|i: int| 0 <= i < kept_pairs(q).len() implies plain(
        #[trigger] kept_pairs(q)[i],
    ) && !occurs(kept_pairs(q)[i], '&') by {
        if keep_pair(p) {
            if i > 0 {
                assert(kept_pairs(q)[i] == rest[i - 1]);
            }
        } else {
            assert(kept_pairs(q)[i] == rest[i]);
        }
    }
}

/// Following the handoff redirect does not hand off again: the cleaned
/// query of plain text holds no `session_token`.
pub proof fn law_handoff_redirect_has_no_token(q: Seq<char>)
    requires
        plain(q),
    ensures
        form_in(seq_join(kept_pairs(q), "&"@), TOKEN_PARAM@).len() == 0,
{
    law_clean_url_drops_token_pairs(q);
    lemma_kept_pairs_plain(q);
    let ps = kept_pairs(q);
    assert forall|i: int| 0 <= i < ps.len() implies !matches_name(#[trigger] ps[i], TOKEN_PARAM@) by {
        let p = ps[i];
        assert(keep_pair(p));
        assert(plain(p));
        if holds(p, '=') {
            lemma_first_index(p, '=');
            lemma_plain_sub(p, 0, first_index(p, '='));
            assert(before(p, '=') == p.subrange(0, first_index(p, '=')));
            lemma_pct_text_plain(before(p, '='));
        }
    }
    lemma_form_in_joined(ps, TOKEN_PARAM@);
}

/// A request is passed on to the app exactly when its verification
/// authenticated it, and then with the verified user attached: the user of
/// the session that was found, holding one of the wanted permissions when any
/// is wanted.
pub proof fn law_passed_request_carries_verified_user(
    req: RequestHead,
    wanted: Seq<Seq<char>>,
    o: Result<Session, StackureError>,
    next: (AuthStage, AuthAction),
)
    requires
        session_found_step(req, wanted, o, next),
    ensures
        match next.1 {
            AuthAction::Conclude { result, reply } => {
                &&& reply is None <==> result.authenticated
                &&& reply is None ==> {
                    &&& o matches Ok(s) && s.authenticated && s.user is Some && result.user == s.user
                    &&& wanted.len() > 0 ==> (result.user matches Some(u) && holds_one_of(
                        u.user_permissions@,
                        wanted,
                    ))
                }
            },
            _ => false,
        },
{
}

/// A request that carries no handoff token, in its query or in a form body
/// the layer reads, has its session looked up once; the lookup's outcome then
/// decides it as `verify` does, and the request is refused as `rejection` says
/// or passed on.
pub proof fn law_request_without_token_is_verified(
    req: RequestHead,
    wanted: Seq<Seq<char>>,
    o: Result<Session, StackureError>,
    first: (AuthStage, AuthAction),
    second: (AuthStage, AuthAction),
)
    requires
        query_param_of(req, TOKEN_PARAM@).len() == 0,
        !wants_form_token_of(req),
        step_taken(req, wanted, AuthStage::Start, AuthEvent::Arrived, first),
        step_taken(req, wanted, first.0, AuthEvent::SessionFound(o), second),
    ensures
        first.0 is AwaitSession,
        first.1 is LookUpSession,
        second.0 is Done,
        second.1 matches AuthAction::Conclude { result, reply } && verdict(o, wanted, result)
            && rejection_of(req, result, reply),
{
}

/// A signed-in user passes whenever some wanted permission equals some
/// permission the user holds, at whatever positions the two stand.
pub proof fn law_verify_matches_permission_anywhere(
    s: Session,
    wanted: Seq<Seq<char>>,
    r: VerifyResult,
    i: int,
    j: int,
)
    requires
        verdict(Ok(s), wanted, r),
        s.authenticated,
        s.user matches Some(u) && 0 <= i < wanted.len() && 0 <= j < u.user_permissions@.len()
            && wanted[i] == u.user_permissions@[j]@,
    ensures
        r.authenticated,
        r.user == s.user,
        r.error is None,
{
    let held = s.user->0.user_permissions@;
    assert(wanted[i] == held[j]@);
}

/// A signed-in user none of whose permissions equals any wanted one is
/// refused with a 403 that still carries the user, when any is wanted.
pub proof fn law_verify_refuses_unheld_permissions(s: Session, wanted: Seq<Seq<char>>, r: VerifyResult)
    requires
        verdict(Ok(s), wanted, r),
        s.authenticated,
        s.user is Some,
        wanted.len() > 0,
        forall|i: int, j: int|
            0 <= i < wanted.len() && 0 <= j < s.user->0.user_permissions@.len() ==> wanted[i]
                != s.user->0.user_permissions@[j]@,
    ensures
        !r.authenticated,
        r.user == s.user,
        r.error matches Some(e) && e.code == 403 && e.sign_in_url@.len() == 0 && e.message@
            == "Requires one of: "@ + seq_join(wanted, ", "@),
{
}

/// A signed-in user passes when the route wants no permission.
pub proof fn law_verify_no_permission_wanted(s: Session, r: VerifyResult)
    requires
        verdict(Ok(s), Seq::empty(), r),
        s.authenticated,
        s.user is Some,
    ensures
        r.authenticated,
        r.user == s.user,
        r.error is None,
{
}

/// A failed lookup is a 500 without a user or a sign-in URL.
pub proof fn law_verify_lookup_failure_is_500(
    e: StackureError,
    wanted: Seq<Seq<char>>,
    r: VerifyResult,
)
    requires
        verdict(Err(e), wanted, r),
    ensures
        !r.authenticated,
        r.user is None,
        r.error matches Some(x) && x.code == 500 && x.message@
            == "Authentication verification failed"@ && x.sign_in_url@.len() == 0,
{
}

/// A session that is not signed in, or has no user, is a 401 that carries
/// the session's sign-in URL, whatever permissions are wanted.
pub proof fn law_verify_signed_out_is_401(s: Session, wanted: Seq<Seq<char>>, r: VerifyResult)
    requires
        verdict(Ok(s), wanted, r),
        !s.authenticated || s.user is None,
    ensures
        !r.authenticated,
        r.user is None,
        r.error matches Some(x) && x.code == 401 && x.message@ == "Valid authentication required"@
            && x.sign_in_url@ == s.sign_in_url@,
{
}

/// Whether `pat` occurs in `s` at some position.
pub open spec fn occurs_in(s: Seq<char>, pat: Seq<char>) -> bool {
    exists|k: int| 0 <= k && k + pat.len() <= s.len() && #[trigger] s.subrange(k, k + pat.len()) == pat
}

/// A request counts as a browser's exactly when its `Accept` text holds
/// `text/html` and does not hold `application/json`; other media types, such
/// as `application/xhtml+xml`, do not matter.
pub proof fn law_browser_accepts_html(req: RequestHead)
    ensures
        accepts_html_of(req) <==> (occurs_in(header_or_empty(req, "accept"@), "text/html"@)
            && !occurs_in(header_or_empty(req, "accept"@), "application/json"@)),
{
    let a = header_or_empty(req, "accept"@);
    assert(occurs_in(a, "text/html"@) == contains_seq(a, "text/html"@));
    assert(occurs_in(a, "application/json"@) == contains_seq(a, "application/json"@));
}

/// A browser refused with a 401 that carries a sign-in URL is redirected
/// there; a client whose `Accept` holds `application/json` gets the JSON
/// error instead.
pub proof fn law_browsers_are_sent_to_sign_in(
    req: RequestHead,
    result: VerifyResult,
    e: VerifyError,
    r: Option<Reply>,
)
    requires
        rejection_of(req, result, r),
        !result.authenticated,
        result.error == Some(e),
        e.code == 401,
        e.sign_in_url@.len() > 0,
    ensures
        occurs_in(header_or_empty(req, "accept"@), "text/html"@) && !occurs_in(
            header_or_empty(req, "accept"@),
            "application/json"@,
        ) ==> (r matches Some(x) && x.status == 302 && header_views(x.headers@) == seq![
            ("location"@, e.sign_in_url@),
        ]),
        occurs_in(header_or_empty(req, "accept"@), "application/json"@) ==> (r matches Some(x)
            && x.status == 401 && header_views(x.headers@) == seq![
            ("content-type"@, "application/json"@),
        ]),
{
    law_browser_accepts_html(req);
}

/// A form POST is read for a handoff token whenever the request has no
/// `session` cookie, whatever other cookies it sends: the first step then
/// reads the body when the query holds no token.
pub proof fn law_cookieless_form_post_reads_body(
    req: RequestHead,
    wanted: Seq<Seq<char>>,
    next: (AuthStage, AuthAction),
)
    requires
        req.method@ == "POST"@,
        header_text(req, "content-type"@) matches Some(v) && "application/x-www-form-urlencoded"@.len()
            <= v.len() && v.subrange(0, "application/x-www-form-urlencoded"@.len() as int)
            == "application/x-www-form-urlencoded"@,
        cookie_in(header_or_empty(req, "cookie"@), "session"@).len() == 0,
        query_param_of(req, "session_token"@).len() == 0,
        step_taken(req, wanted, AuthStage::Start, AuthEvent::Arrived, next),
    ensures
        wants_form_token_of(req),
        next.0 is AwaitBody,
        next.1 is ReadBody,
{
    assert(SESSION_COOKIE@ == "session"@);
    assert(TOKEN_PARAM@ == "session_token"@);
}

/// Only a POST whose content type begins with
/// `application/x-www-form-urlencoded` is read for a form token.
pub proof fn law_form_token_needs_form_post(req: RequestHead)
    ensures
        req.method@ != "POST"@ ==> !wants_form_token_of(req),
        header_text(req, "content-type"@) is None ==> !wants_form_token_of(req),
        (header_text(req, "content-type"@) matches Some(v) && !(
        "application/x-www-form-urlencoded"@.len() <= v.len() && v.subrange(
            0,
            "application/x-www-form-urlencoded"@.len() as int,
        ) == "application/x-www-form-urlencoded"@)) ==> !wants_form_token_of(req),
{
}

/// A request with a `session` cookie is never read for a form token.
pub proof fn law_session_cookie_skips_form(req: RequestHead)
    requires
        cookie_in(header_or_empty(req, "cookie"@), "session"@).len() > 0,
    ensures
        !wants_form_token_of(req),
{
    assert(SESSION_COOKIE@ == "session"@);
}

/// Whether `x` is an ASCII hex digit, either case.
pub open spec fn hex_byte(x: u8) -> bool {
    (0x30 <= x <= 0x39) || (0x61 <= x <= 0x66) || (0x41 <= x <= 0x46)
}

/// The UUID v4 shape, byte by byte: 36 bytes, `-` at 8, 13, 18 and 23, `4`
/// at 14, one of `8 9 a b A B` at 19, and hex digits everywhere else.
pub proof fn law_uuid_shape(b: Seq<u8>)
    ensures
        uuid_shaped(b) <==> {
            &&& b.len() == 36
            &&& b[8] == 0x2d && b[13] == 0x2d && b[18] == 0x2d && b[23] == 0x2d
            &&& b[14] == 0x34
            &&& (b[19] == 0x38 || b[19] == 0x39 || b[19] == 0x61 || b[19] == 0x62 || b[19] == 0x41
                || b[19] == 0x42)
            &&& forall|i: int|
                0 <= i < 36 && i != 8 && i != 13 && i != 18 && i != 23 ==> hex_byte(#[trigger] b[i])
        },
{
    if uuid_shaped(b) {
        assert(is_hex(b[19]));
    }
    if b.len() == 36 && (forall|i: int|
        0 <= i < 36 && i != 8 && i != 13 && i != 18 && i != 23 ==> hex_byte(#[trigger] b[i])) {
        assert forall|i: int| 0 <= i < 36 && !dash_at(i) implies is_hex(#[trigger] b[i]) by {
            assert(hex_byte(b[i]));
        }
    }
}

/// Every answer with a status of 500 or more is retried once, on the first
/// attempt, while more than 500 ms of the deadline are left; never again.
pub proof fn law_server_errors_retried_once(status: u16, remaining_nanos: u64)
    requires
        status >= 500,
        remaining_nanos > 500_000_000,
    ensures
        retry_wanted(0, AttemptKind::Answered(status), remaining_nanos),
        !retry_wanted(1, AttemptKind::Answered(status), remaining_nanos),
{
}

/// An answer with a status below 500 ends the call, and so does anything
/// when 500 ms or less of the deadline are left.
pub proof fn law_other_answers_end_the_call(
    attempt: u32,
    status: u16,
    kind: AttemptKind,
    remaining_nanos: u64,
)
    ensures
        status < 500 ==> !retry_wanted(attempt, AttemptKind::Answered(status), remaining_nanos),
        remaining_nanos <= 500_000_000 ==> !retry_wanted(attempt, kind, remaining_nanos),
{
}

/// A failed attempt is retried once while more than 500 ms are left.
pub proof fn law_failures_retried_once(remaining_nanos: u64)
    requires
        remaining_nanos > 500_000_000,
    ensures
        retry_wanted(0, AttemptKind::Failed, remaining_nanos),
        !retry_wanted(1, AttemptKind::Failed, remaining_nanos),
{
}

/// A 2xx answer is a success and nothing else is; a 401 is an auth error
/// and a 403 a forbidden one, each carrying the body text (or
/// `unknown error` when it is empty), and every other failure is a network
/// error.
pub proof fn law_answer_statuses(status: u16, text: Seq<char>)
    ensures
        is_success(status) <==> (200 <= status && status <= 299),
        status == 401 && text.len() > 0 ==> api_error(status, text) == (ErrorKind::Auth, text),
        status == 403 && text.len() > 0 ==> api_error(status, text) == (ErrorKind::Forbidden, text),
        status == 401 && text.len() == 0 ==> api_error(status, text) == (
            ErrorKind::Auth,
            "unknown error"@,
        ),
        status != 401 && status != 403 ==> api_error(status, text).0 == ErrorKind::Network,
{
}

} // verus!
