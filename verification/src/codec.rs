//! Encoding of records as JSON response bodies, and decoding of request
//! bodies into records. The serialization is the library's own, specified
//! byte by byte; for the decode, the parse of the JSON text itself is
//! serde_json's, named and trusted, and everything after it is verified.
use crate::store::views_of;
use crate::text::{blank, is_blank, spec_body, request_body};
use crate::user::{User, UserView};
use vstd::prelude::*;
use vstd::string::StrSliceExecFns;

verus! {

broadcast use vstd::string::group_string_axioms;

/// The bytes of an ASCII string, character by character.
pub open spec fn lit_bytes(s: Seq<char>) -> Seq<u8> {
    Seq::new(s.len(), |i: int| s[i] as u8)
}

/// Copies the bytes of an ASCII string.
pub fn lit(s: &str) -> (r: Vec<u8>)
    requires
        vstd::string::is_ascii(s),
    ensures
        r@ == lit_bytes(s@),
{
    let r = s.as_bytes_vec();
    proof {
        assert(r@ =~= lit_bytes(s@));
    }
    r
}

/// One hexadecimal digit, lower case.
pub open spec fn hex_digit(n: int) -> u8 {
    if n < 10 {
        (48 + n) as u8
    } else {
        (87 + n) as u8
    }
}

/// How one byte of a text field appears inside a JSON string: quote and
/// backslash escaped; backspace, tab, line feed, form feed and carriage
/// return as their short escapes; other control bytes as `\u00..`;
/// everything else as is.
pub open spec fn esc_byte(b: u8) -> Seq<u8> {
    if b == 34 {
        seq![92u8, 34u8]
    } else if b == 92 {
        seq![92u8, 92u8]
    } else if b == 8 {
        seq![92u8, 98u8]
    } else if b == 9 {
        seq![92u8, 116u8]
    } else if b == 10 {
        seq![92u8, 110u8]
    } else if b == 12 {
        seq![92u8, 102u8]
    } else if b == 13 {
        seq![92u8, 114u8]
    } else if b < 32 {
        seq![92u8, 117u8, 48u8, 48u8, hex_digit(b as int / 16), hex_digit(b as int % 16)]
    } else {
        seq![b]
    }
}

/// A text field as it appears inside a JSON string.
pub open spec fn esc_bytes(s: Seq<u8>) -> Seq<u8>
    decreases s.len(),
{
    if s.len() == 0 {
        Seq::empty()
    } else {
        esc_bytes(s.drop_last()) + esc_byte(s.last())
    }
}

/// Appends the escaped form of `s` to `out`.
#[verifier::loop_isolation(false)]
fn push_escaped(out: &mut Vec<u8>, s: &Vec<u8>)
    ensures
        final(out)@ == old(out)@ + esc_bytes(s@),
{
    let mut i: usize = 0;
    while i < s.len()
        invariant
            0 <= i <= s@.len(),
            out@ == old(out)@ + esc_bytes(s@.take(i as int)),
        decreases s@.len() - i,
    {
        let b = s[i];
        proof {
            assert(s@.take(i + 1).drop_last() =~= s@.take(i as int));
            assert(s@.take(i + 1).last() == s@[i as int]);
        }
        if b == 34 {
            out.push(92);
            out.push(34);
        } else if b == 92 {
            out.push(92);
            out.push(92);
        } else if b == 8 {
            out.push(92);
            out.push(98);
        } else if b == 9 {
            out.push(92);
            out.push(116);
        } else if b == 10 {
            out.push(92);
            out.push(110);
        } else if b == 12 {
            out.push(92);
            out.push(102);
        } else if b == 13 {
            out.push(92);
            out.push(114);
        } else if b < 32 {
            out.push(92);
            out.push(117);
            out.push(48);
            out.push(48);
            let hi = b / 16;
            let lo = b % 16;
            out.push(if hi < 10 { 48 + hi } else { 87 + hi });
            out.push(if lo < 10 { 48 + lo } else { 87 + lo });
        } else {
            out.push(b);
        }
        proof {
            assert(out@ =~= old(out)@ + esc_bytes(s@.take(i + 1)));
        }
        i = i + 1;
    }
    proof {
        assert(s@.take(s@.len() as int) =~= s@);
    }
}

/// The decimal digits of a non-negative number, most significant first.
pub open spec fn dec_rep(n: nat) -> Seq<u8>
    decreases n,
{
    if n <= 9 {
        seq![(48 + n) as u8]
    } else {
        dec_rep(n / 10).push((48 + n % 10) as u8)
    }
}

/// The decimal form of a signed number.
pub open spec fn spec_i32_dec(v: int) -> Seq<u8> {
    if v >= 0 {
        dec_rep(v as nat)
    } else {
        seq![45u8] + dec_rep((-v) as nat)
    }
}

/// Appends the decimal digits of `m` to `out`.
fn push_dec(out: &mut Vec<u8>, m: u32)
    ensures
        final(out)@ == old(out)@ + dec_rep(m as nat),
    decreases m,
{
    if m <= 9 {
        out.push(48 + m as u8);
    } else {
        push_dec(out, m / 10);
        out.push(48 + (m % 10) as u8);
    }
}

/// Appends the decimal form of `v` to `out`.
fn push_i32(out: &mut Vec<u8>, v: i32)
    ensures
        final(out)@ == old(out)@ + spec_i32_dec(v as int),
{
    if v < 0 {
        out.push(45);
        let m: u32 = (-(v as i64)) as u32;
        push_dec(out, m);
        proof {
            assert(final(out)@ =~= old(out)@ + spec_i32_dec(v as int));
        }
    } else {
        push_dec(out, v as u32);
    }
}

/// The id field of a response body: digits, or `null` before persistence.
pub open spec fn json_id(id: Option<int>) -> Seq<u8> {
    match id {
        Some(i) => spec_i32_dec(i),
        None => lit_bytes("null"@),
    }
}

/// A record as a JSON object, fields in declaration order.
pub open spec fn json_user(u: UserView) -> Seq<u8> {
    lit_bytes("{\"id\":"@) + json_id(u.id) + lit_bytes(",\"name\":\""@) + esc_bytes(u.name)
        + lit_bytes("\",\"email\":\""@) + esc_bytes(u.email) + lit_bytes("\"}"@)
}

/// Serializes one record, exactly as `json_user` says.
pub fn user_json(u: &User) -> (r: Vec<u8>)
    ensures
        r@ == json_user(u@),
{
    proof {
        reveal_strlit("{\"id\":");
        reveal_strlit("null");
        reveal_strlit(",\"name\":\"");
        reveal_strlit("\",\"email\":\"");
        reveal_strlit("\"}");
    }
    let mut out = lit("{\"id\":");
    match u.id {
        Some(i) => push_i32(&mut out, i),
        None => {
            let mut piece = lit("null");
            out.append(&mut piece);
        },
    }
    let mut piece = lit(",\"name\":\"");
    out.append(&mut piece);
    push_escaped(&mut out, &u.name);
    let mut piece = lit("\",\"email\":\"");
    out.append(&mut piece);
    push_escaped(&mut out, &u.email);
    let mut piece = lit("\"}");
    out.append(&mut piece);
    proof {
        assert(out@ =~= json_user(u@));
    }
    out
}

/// The comma-separated items of the list response.
pub open spec fn json_users_items(rows: Seq<UserView>) -> Seq<u8>
    decreases rows.len(),
{
    if rows.len() == 0 {
        Seq::empty()
    } else if rows.len() == 1 {
        json_user(rows[0])
    } else {
        json_users_items(rows.drop_last()) + seq![44u8] + json_user(rows.last())
    }
}

/// A sequence of records as a JSON array, in sequence order.
pub open spec fn json_users(rows: Seq<UserView>) -> Seq<u8> {
    seq![91u8] + json_users_items(rows) + seq![93u8]
}

/// Serializes a list of records, exactly as `json_users` says.
#[verifier::loop_isolation(false)]
pub fn users_json(users: &Vec<User>) -> (r: Vec<u8>)
    ensures
        r@ == json_users(views_of(users@)),
{
    let ghost rows = views_of(users@);
    let mut out: Vec<u8> = Vec::new();
    out.push(91);
    let mut i: usize = 0;
    while i < users.len()
        invariant
            0 <= i <= users@.len(),
            out@ == seq![91u8] + json_users_items(rows.take(i as int)),
        decreases users@.len() - i,
    {
        if i > 0 {
            out.push(44);
        }
        let mut piece = user_json(&users[i]);
        out.append(&mut piece);
        proof {
            assert(rows.take(i + 1).drop_last() =~= rows.take(i as int));
            assert(rows.take(i + 1).last() == rows[i as int]);
            if i == 0 {
                assert(out@ =~= seq![91u8] + json_users_items(rows.take(i + 1)));
            } else {
                assert(out@ =~= seq![91u8] + json_users_items(rows.take(i + 1)));
            }
        }
        i = i + 1;
    }
    out.push(93);
    proof {
        assert(rows.take(users@.len() as int) =~= rows);
        assert(out@ =~= json_users(rows));
    }
    out
}

/// What serde_json finds in a body read as text (invalid UTF-8 replaced):
/// `None` when it rejects the text (not valid JSON, or past its nesting
/// limit); otherwise whether the document is a JSON object, and its
/// `name` and `email` members — each absent, present as something other
/// than a JSON string, or present as a string with those bytes. A
/// function of the body's bytes alone.
pub uninterp spec fn json_text_fields(body: Seq<u8>) -> Option<
    (bool, Option<Option<Seq<u8>>>, Option<Option<Seq<u8>>>),
>;

pub open spec fn field_bytes(o: Option<Option<Vec<u8>>>) -> Option<Option<Seq<u8>>> {
    match o {
        None => None,
        Some(None) => Some(None),
        Some(Some(v)) => Some(Some(v@)),
    }
}

/// Relies on serde_json: `from_str::<Value>` errs exactly on text it
/// cannot parse (the body is read as the service reads it, invalid UTF-8
/// replaced); `Value::is_object` tells a JSON object; `Value::get` gives
/// a member exactly when it is present; `Value::as_str` gives its text
/// exactly when it is a JSON string. All of it depends on the body's
/// bytes alone, so the joint outcome is the named `json_text_fields`.
#[verifier::external_body]
fn decode_fields(body: &[u8]) -> (r: Option<
    (bool, Option<Option<Vec<u8>>>, Option<Option<Vec<u8>>>),
>)
    ensures
        r is Some <==> json_text_fields(body@) is Some,
        r is Some ==> {
            let f = json_text_fields(body@)->Some_0;
            r->Some_0.0 == f.0 && field_bytes(r->Some_0.1) == f.1 && field_bytes(r->Some_0.2)
                == f.2
        },
{
    let text = String::from_utf8_lossy(body);
    match serde_json::from_str::<serde_json::Value>(&text) {
        Err(_) => None,
        Ok(v) => {
            let name = v.get("name").map(|f| f.as_str().map(|t| t.as_bytes().to_vec()));
            let email = v.get("email").map(|f| f.as_str().map(|t| t.as_bytes().to_vec()));
            Some((v.is_object(), name, email))
        },
    }
}

/// Why a request body was rejected.
#[derive(Clone, Copy, Debug, PartialEq, Eq, Structural)]
pub enum BodyError {
    InvalidJson,
    NameRequired,
    EmailRequired,
}

/// The message a rejected body is answered with.
pub open spec fn body_error_message(e: BodyError) -> Seq<u8> {
    match e {
        BodyError::InvalidJson => lit_bytes("Invalid JSON format"@),
        BodyError::NameRequired => lit_bytes("Name is required"@),
        BodyError::EmailRequired => lit_bytes("Email is required"@),
    }
}

impl BodyError {
    /// The message bytes for this rejection.
    pub fn message(&self) -> (r: Vec<u8>)
        ensures
            r@ == body_error_message(*self),
    {
        match self {
            BodyError::InvalidJson => {
                proof {
                    reveal_strlit("Invalid JSON format");
                }
                lit("Invalid JSON format")
            },
            BodyError::NameRequired => {
                proof {
                    reveal_strlit("Name is required");
                }
                lit("Name is required")
            },
            BodyError::EmailRequired => {
                proof {
                    reveal_strlit("Email is required");
                }
                lit("Email is required")
            },
        }
    }
}

/// A member that is present but not a JSON string: a record decode fails
/// structurally on it.
pub open spec fn non_text(o: Option<Option<Seq<u8>>>) -> bool {
    o is Some && o->Some_0 is None
}

/// A usable member: present as a JSON string, and not blank after
/// trimming.
pub open spec fn usable_text(o: Option<Option<Seq<u8>>>) -> bool {
    o is Some && o->Some_0 is Some && !blank(o->Some_0->Some_0)
}

/// The bytes of a member present as a JSON string.
pub open spec fn text_of(o: Option<Option<Seq<u8>>>) -> Seq<u8> {
    o->Some_0->Some_0
}

/// How a body decodes: structural failure first — text that is not valid
/// JSON, a document that is not an object, or a name or email member
/// that is not a string — then a missing or blank name, then a missing
/// or blank email, and otherwise the two fields.
pub open spec fn spec_decode_user(body: Seq<u8>) -> Result<(Seq<u8>, Seq<u8>), BodyError> {
    match json_text_fields(body) {
        None => Err(BodyError::InvalidJson),
        Some(f) => if !f.0 || non_text(f.1) || non_text(f.2) {
            Err(BodyError::InvalidJson)
        } else if !usable_text(f.1) {
            Err(BodyError::NameRequired)
        } else if !usable_text(f.2) {
            Err(BodyError::EmailRequired)
        } else {
            Ok((text_of(f.1), text_of(f.2)))
        },
    }
}

/// Decodes the body of `request` (everything after the first blank line)
/// into an in-flight record, or reports why it is rejected, exactly as
/// `spec_decode_user` says. Any id in the body is ignored.
pub fn get_user_request_body(request: &[u8]) -> (r: Result<User, BodyError>)
    ensures
        ({
            let d = spec_decode_user(spec_body(request@));
            match r {
                Ok(u) => d is Ok && u@ == (UserView {
                    id: None,
                    name: d->Ok_0.0,
                    email: d->Ok_0.1,
                }),
                Err(e) => d is Err && e == d->Err_0,
            }
        }),
{
    let body = request_body(request);
    match decode_fields(body.as_slice()) {
        None => Err(BodyError::InvalidJson),
        Some((is_obj, name_field, email_field)) => {
            let name_opt = match name_field {
                None => None,
                Some(None) => {
                    return Err(BodyError::InvalidJson);
                },
                Some(Some(v)) => Some(v),
            };
            let email_opt = match email_field {
                None => None,
                Some(None) => {
                    return Err(BodyError::InvalidJson);
                },
                Some(Some(v)) => Some(v),
            };
            if !is_obj {
                return Err(BodyError::InvalidJson);
            }
            let name = match name_opt {
                Some(n) => n,
                None => {
                    return Err(BodyError::NameRequired);
                },
            };
            if is_blank(name.as_slice()) {
                return Err(BodyError::NameRequired);
            }
            let email = match email_opt {
                Some(e) => e,
                None => {
                    return Err(BodyError::EmailRequired);
                },
            };
            if is_blank(email.as_slice()) {
                return Err(BodyError::EmailRequired);
            }
            Ok(User { id: None, name, email })
        },
    }
}

} // verus!
