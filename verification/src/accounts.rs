//! Rules on the text of accounts and suppliers: e-mail addresses, credential hashes,
//! role names and web links.
use vstd::prelude::*;

use crate::model::ComplexityLevel;
use crate::text::{
    any_whitespace, chars_of, clean_spec, find_char, has_ws, holds_char, is_blank, is_prefix,
    lemma_find_char, lowercase_of, owned, position_of, starts_with, str_equal, to_lowercase,
    trim, trimmed, blank,
};

verus! {

/// An address (already trimmed and lowercased) has a non-empty part before its first `@`,
/// a `.` after it, and no whitespace.
pub open spec fn address_ok(e: Seq<char>) -> bool {
    match find_char(e, '@') {
        Some(i) => i > 0 && e.subrange(i + 1, e.len() as int).contains('.') && !has_ws(e),
        None => false,
    }
}

/// The stored form of an e-mail address.
pub open spec fn normalized_email(value: Seq<char>) -> Seq<char> {
    lowercase_of(trim(value))
}

fn address_check(e: &str) -> (r: bool)
    ensures
        r == address_ok(e@),
{
    let v = chars_of(e);
    match position_of(&v, '@') {
        Some(i) => {
            if i == 0 {
                return false;
            }
            let mut domain: Vec<char> = Vec::new();
            let n = v.len();
            assert(i < n);
            let mut k = i + 1;
            while k < v.len()
                invariant
                    i < k <= v.len(),
                    domain@ == v@.subrange(i + 1, k as int),
                decreases v.len() - k,
            {
                domain.push(v[k]);
                k += 1;
            }
            holds_char(&domain, '.') && !any_whitespace(&v)
        },
        None => false,
    }
}

/// Trims and lowercases an address; `Err("user_email_invalid")` unless it passes
/// `address_ok`.
pub fn normalize_email(value: &str) -> (r: Result<String, String>)
    ensures
        address_ok(normalized_email(value@)) ==> (r matches Ok(e) && e@ == normalized_email(
            value@,
        )),
        !address_ok(normalized_email(value@)) ==> (r matches Err(e) && e@
            == "user_email_invalid"@),
{
    let t = trimmed(value);
    let email = to_lowercase(t.as_str());
    if address_check(email.as_str()) {
        Ok(email)
    } else {
        Err(owned("user_email_invalid"))
    }
}

/// The stored role names.
pub open spec fn known_role(role: Seq<char>) -> bool {
    role == "admin"@ || role == "chefe"@ || role == "compras"@ || role == "tecnico"@
}

/// `Ok` for the four stored role names, else `Err("user_role_invalid")`.
pub fn validate_role_name(role: &str) -> (r: Result<(), String>)
    ensures
        r is Ok <==> known_role(role@),
        r matches Err(e) ==> e@ == "user_role_invalid"@,
{
    if str_equal(role, "admin") || str_equal(role, "chefe") || str_equal(role, "compras")
        || str_equal(role, "tecnico") {
        Ok(())
    } else {
        Err(owned("user_role_invalid"))
    }
}

/// An ASCII hexadecimal digit.
pub open spec fn is_hex(c: char) -> bool {
    ('0' <= c && c <= '9') || ('a' <= c && c <= 'f') || ('A' <= c && c <= 'F')
}

/// A credential hash has the form `scrypt$<salt>$<digest>`: exactly two `$`, a
/// non-empty salt and an even-length digest of at least 32 hex digits.
pub open spec fn auth_hash_ok(v: Seq<char>) -> bool {
    match find_char(v, '$') {
        None => false,
        Some(i) => {
            let rest = v.subrange(i + 1, v.len() as int);
            match find_char(rest, '$') {
                None => false,
                Some(j) => {
                    let algorithm = v.subrange(0, i);
                    let salt = rest.subrange(0, j);
                    let digest = rest.subrange(j + 1, rest.len() as int);
                    &&& algorithm == "scrypt"@
                    &&& salt.len() > 0
                    &&& digest.len() >= 32
                    &&& digest.len() % 2 == 0
                    &&& forall|k: int| 0 <= k < digest.len() ==> is_hex(#[trigger] digest[k])
                },
            }
        },
    }
}

fn sub_chars(v: &Vec<char>, from: usize, to: usize) -> (r: Vec<char>)
    requires
        from <= to <= v.len(),
    ensures
        r@ == v@.subrange(from as int, to as int),
{
    let mut r: Vec<char> = Vec::new();
    let mut k = from;
    while k < to
        invariant
            from <= k <= to <= v.len(),
            r@ == v@.subrange(from as int, k as int),
        decreases to - k,
    {
        r.push(v[k]);
        k += 1;
    }
    r
}

fn all_hex(v: &Vec<char>) -> (r: bool)
    ensures
        r == forall|k: int| 0 <= k < v@.len() ==> is_hex(#[trigger] v@[k]),
{
    let mut k: usize = 0;
    while k < v.len()
        invariant
            k <= v.len(),
            forall|m: int| 0 <= m < k ==> is_hex(#[trigger] v@[m]),
        decreases v.len() - k,
    {
        let c = v[k];
        if !(('0' <= c && c <= '9') || ('a' <= c && c <= 'f') || ('A' <= c && c <= 'F')) {
            return false;
        }
        k += 1;
    }
    true
}

fn chars_equal(a: &Vec<char>, b: &str) -> (r: bool)
    ensures
        r == (a@ == b@),
{
    let bv = chars_of(b);
    if a.len() != bv.len() {
        return false;
    }
    let mut k: usize = 0;
    while k < a.len()
        invariant
            k <= a.len() == bv.len(),
            bv@ == b@,
            forall|m: int| 0 <= m < k ==> a@[m] == b@[m],
        decreases a.len() - k,
    {
        if a[k] != bv[k] {
            return false;
        }
        k += 1;
    }
    assert(a@ =~= b@);
    true
}

/// `Ok` for a well-formed credential hash, else `Err(error)`.
pub fn validate_auth_hash(value: &str, error: &str) -> (r: Result<(), String>)
    ensures
        r is Ok <==> auth_hash_ok(value@),
        r matches Err(e) ==> e@ == error@,
{
    let v = chars_of(value);
    let i = match position_of(&v, '$') {
        Some(i) => i,
        None => return Err(owned(error)),
    };
    let n = v.len();
    assert(i < n);
    let rest = sub_chars(&v, i + 1, n);
    let j = match position_of(&rest, '$') {
        Some(j) => j,
        None => return Err(owned(error)),
    };
    let algorithm = sub_chars(&v, 0, i);
    let digest = sub_chars(&rest, j + 1, rest.len());
    if !chars_equal(&algorithm, "scrypt") || j == 0 || digest.len() < 32 || digest.len() % 2 != 0
        || !all_hex(&digest) {
        return Err(owned(error));
    }
    Ok(())
}

/// The repair level a person gets when none is given: expert for administrators and
/// supervisors, intermediate for everyone else.
pub fn default_repair_level(role: &str) -> (r: ComplexityLevel)
    ensures
        r.value() == (if role@ == "admin"@ || role@ == "chefe"@ {
            5u8
        } else {
            3u8
        }),
{
    if str_equal(role, "admin") || str_equal(role, "chefe") {
        ComplexityLevel::expert()
    } else {
        ComplexityLevel::intermediate()
    }
}

/// The links of a supplier are acceptable: a present, non-blank address passes
/// `address_ok` after trimming, and a present, non-blank website has no whitespace and
/// starts with `https://` or `http://`.
pub open spec fn supplier_email_ok(email: Option<Seq<char>>) -> bool {
    match email {
        Some(e) => is_blank(e) || address_ok(trim(e)),
        None => true,
    }
}

/// See `supplier_email_ok`.
pub open spec fn supplier_website_ok(website: Option<Seq<char>>) -> bool {
    match website {
        Some(w) => is_blank(w) || (!has_ws(trim(w)) && (is_prefix("https://"@, trim(w))
            || is_prefix("http://"@, trim(w)))),
        None => true,
    }
}

/// Checks a supplier's optional e-mail address and website.
pub fn validate_supplier_links(email: Option<&str>, website: Option<&str>) -> (r: Result<
    (),
    String,
>)
    ensures
        r is Ok <==> supplier_email_ok(opt_str_view(email)) && supplier_website_ok(
            opt_str_view(website),
        ),
        !supplier_email_ok(opt_str_view(email)) ==> (r matches Err(e) && e@
            == "supplier_email_invalid"@),
        supplier_email_ok(opt_str_view(email)) && !supplier_website_ok(opt_str_view(website))
            ==> (r matches Err(e) && e@ == "supplier_website_invalid"@),
{
    if let Some(e) = email {
        if !blank(e) {
            let t = trimmed(e);
            if !address_check(t.as_str()) {
                return Err(owned("supplier_email_invalid"));
            }
        }
    }
    if let Some(w) = website {
        if !blank(w) {
            let t = trimmed(w);
            let tv = chars_of(t.as_str());
            if any_whitespace(&tv) || !(starts_with(t.as_str(), "https://") || starts_with(
                t.as_str(),
                "http://",
            )) {
                return Err(owned("supplier_website_invalid"));
            }
        }
    }
    Ok(())
}

/// The characters of an optional text.
pub open spec fn opt_str_view(o: Option<&str>) -> Option<Seq<char>> {
    match o {
        Some(s) => Some(s@),
        None => None,
    }
}

} // verus!
