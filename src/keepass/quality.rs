use vstd::prelude::*;
use vstd::string::*;

use crate::keepass::kdbx::VaultEntry;

verus! {

/// What `char::is_uppercase` says of a character.
pub uninterp spec fn is_upper(c: char) -> bool;

/// What `char::is_lowercase` says of a character.
pub uninterp spec fn is_lower(c: char) -> bool;

/// What `char::is_numeric` says of a character.
pub uninterp spec fn is_numeric(c: char) -> bool;

/// What `char::is_alphanumeric` says of a character.
pub uninterp spec fn is_alphanumeric(c: char) -> bool;

/// Relies on `char::is_uppercase`: Unicode's Uppercase property.
#[verifier::external_body]
fn char_is_upper(c: char) -> (r: bool)
    ensures
        r == is_upper(c),
{
    c.is_uppercase()
}

/// Relies on `char::is_lowercase`: Unicode's Lowercase property.
#[verifier::external_body]
fn char_is_lower(c: char) -> (r: bool)
    ensures
        r == is_lower(c),
{
    c.is_lowercase()
}

/// Relies on `char::is_numeric`: Unicode's numeric general categories.
#[verifier::external_body]
fn char_is_numeric(c: char) -> (r: bool)
    ensures
        r == is_numeric(c),
{
    c.is_numeric()
}

/// Relies on `char::is_alphanumeric`: Unicode's Alphabetic property or a numeric category.
#[verifier::external_body]
fn char_is_alphanumeric(c: char) -> (r: bool)
    ensures
        r == is_alphanumeric(c),
{
    c.is_alphanumeric()
}

/// Bytes that UTF-8 takes for a character.
pub open spec fn char_utf8_len(c: char) -> nat {
    if (c as u32) < 0x80 {
        1
    } else if (c as u32) < 0x800 {
        2
    } else if (c as u32) < 0x10000 {
        3
    } else {
        4
    }
}

/// Bytes that UTF-8 takes for a text.
pub open spec fn utf8_len(s: Seq<char>) -> nat
    decreases s.len(),
{
    if s.len() == 0 {
        0
    } else {
        utf8_len(s.drop_last()) + char_utf8_len(s.last())
    }
}

/// Bytes that UTF-8 takes for `s`.
pub fn utf8_length(s: &str) -> (r: u128)
    ensures
        r == utf8_len(s@),
{
    let n = s.unicode_len();
    let mut total: u128 = 0;
    let mut i: usize = 0;
    while i < n
        invariant
            n == s@.len(),
            i <= n,
            total == utf8_len(s@.subrange(0, i as int)),
            total <= 4 * i,
        decreases n - i,
    {
        proof {
            let t = s@.subrange(0, i + 1);
            assert(t.drop_last() =~= s@.subrange(0, i as int));
            assert(t.last() == s@[i as int]);
        }
        let c = s.get_char(i);
        let code = c as u32;
        let w: u128 = if code < 0x80 {
            1
        } else if code < 0x800 {
            2
        } else if code < 0x10000 {
            3
        } else {
            4
        };
        total = total + w;
        i = i + 1;
    }
    assert(s@.subrange(0, n as int) =~= s@);
    total
}

/// The classes of characters a password draws on.
#[derive(Debug, Clone, Copy, PartialEq, Eq, Structural)]
pub struct CharClasses {
    pub has_uppercase: bool,
    pub has_lowercase: bool,
    pub has_digits: bool,
    pub has_special: bool,
}

pub open spec fn classes_of(s: Seq<char>) -> CharClasses {
    CharClasses {
        has_uppercase: exists|i: int| 0 <= i < s.len() && is_upper(#[trigger] s[i]),
        has_lowercase: exists|i: int| 0 <= i < s.len() && is_lower(#[trigger] s[i]),
        has_digits: exists|i: int| 0 <= i < s.len() && is_numeric(#[trigger] s[i]),
        has_special: exists|i: int| 0 <= i < s.len() && !is_alphanumeric(#[trigger] s[i]),
    }
}

/// Which classes of characters `password` holds.
pub fn char_classes(password: &str) -> (r: CharClasses)
    ensures
        r == classes_of(password@),
{
    let n = password.unicode_len();
    let mut up = false;
    let mut low = false;
    let mut dig = false;
    let mut spec = false;
    let mut i: usize = 0;
    while i < n
        invariant
            n == password@.len(),
            i <= n,
            up == exists|j: int| 0 <= j < i && is_upper(#[trigger] password@[j]),
            low == exists|j: int| 0 <= j < i && is_lower(#[trigger] password@[j]),
            dig == exists|j: int| 0 <= j < i && is_numeric(#[trigger] password@[j]),
            spec == exists|j: int| 0 <= j < i && !is_alphanumeric(#[trigger] password@[j]),
        decreases n - i,
    {
        let c = password.get_char(i);
        up = up || char_is_upper(c);
        low = low || char_is_lower(c);
        dig = dig || char_is_numeric(c);
        spec = spec || !char_is_alphanumeric(c);
        i = i + 1;
    }
    CharClasses { has_uppercase: up, has_lowercase: low, has_digits: dig, has_special: spec }
}

/// The score of a password from its UTF-8 length in bytes and its classes:
/// 20 from 8 bytes, 10 more from 12 and from 16, and 15 for each class.
pub open spec fn score_of(len: nat, c: CharClasses) -> nat {
    (if len >= 8 { 20nat } else { 0 }) + (if len >= 12 { 10nat } else { 0 }) + (if c.has_uppercase { 15nat } else { 0 })
        + (if c.has_lowercase { 15nat } else { 0 }) + (if c.has_digits { 15nat } else { 0 }) + (
    if c.has_special { 15nat } else { 0 }) + (if len >= 16 { 10nat } else { 0 })
}

/// The score of `password`, at most 100.
pub fn password_score(password: &str) -> (r: u8)
    ensures
        r as nat == score_of(utf8_len(password@), classes_of(password@)),
        r <= 100,
{
    let len = utf8_length(password);
    let c = char_classes(password);
    let mut score: u8 = 0;
    if len >= 8 {
        score = score + 20;
    }
    if len >= 12 {
        score = score + 10;
    }
    if c.has_uppercase {
        score = score + 15;
    }
    if c.has_lowercase {
        score = score + 15;
    }
    if c.has_digits {
        score = score + 15;
    }
    if c.has_special {
        score = score + 15;
    }
    if len >= 16 {
        score = score + 10;
    }
    score
}

/// The rough time to crack a password of this score, up to 100.
pub fn estimate_crack_time(score: u8) -> (r: Option<String>)
    ensures
        score <= 20 ==> r is Some && r->Some_0@ == "Мгновенно"@,
        21 <= score <= 40 ==> r is Some && r->Some_0@ == "Несколько минут"@,
        41 <= score <= 60 ==> r is Some && r->Some_0@ == "Несколько часов"@,
        61 <= score <= 80 ==> r is Some && r->Some_0@ == "Несколько дней"@,
        81 <= score <= 100 ==> r is Some && r->Some_0@ == "Несколько лет"@,
        score > 100 ==> r is None,
{
    if score <= 20 {
        Some(String::from_str("Мгновенно"))
    } else if score <= 40 {
        Some(String::from_str("Несколько минут"))
    } else if score <= 60 {
        Some(String::from_str("Несколько часов"))
    } else if score <= 80 {
        Some(String::from_str("Несколько дней"))
    } else if score <= 100 {
        Some(String::from_str("Несколько лет"))
    } else {
        None
    }
}

/// The advice for a password: what it lacks, in this order.
pub open spec fn suggestions_for(len: nat, c: CharClasses) -> Seq<Seq<char>> {
    (if len < 12 { seq!["Используйте пароль длиной не менее 12 символов"@] } else { seq![] })
        + (if !c.has_uppercase { seq!["Добавьте заглавные буквы"@] } else { seq![] })
        + (if !c.has_lowercase { seq!["Добавьте строчные буквы"@] } else { seq![] })
        + (if !c.has_digits { seq!["Добавьте цифры"@] } else { seq![] })
        + (if !c.has_special { seq!["Добавьте специальные символы"@] } else { seq![] })
}

/// Advice on how to strengthen `password`.
pub fn generate_password_suggestions(password: &str) -> (r: Vec<String>)
    ensures
        r@.map_values(|s: String| s@) == suggestions_for(utf8_len(password@), classes_of(password@)),
{
    let c = char_classes(password);
    let mut out: Vec<String> = Vec::new();
    let ghost len = utf8_len(password@);
    if utf8_length(password) < 12 {
        out.push(String::from_str("Используйте пароль длиной не менее 12 символов"));
    }
    if !c.has_uppercase {
        out.push(String::from_str("Добавьте заглавные буквы"));
    }
    if !c.has_lowercase {
        out.push(String::from_str("Добавьте строчные буквы"));
    }
    if !c.has_digits {
        out.push(String::from_str("Добавьте цифры"));
    }
    if !c.has_special {
        out.push(String::from_str("Добавьте специальные символы"));
    }
    assert(out@.map_values(|s: String| s@) =~= suggestions_for(len, c));
    out
}

/// A password is weak when it is missing, shorter than 8 bytes, or lacks an
/// upper-case letter, a lower-case letter or a digit.
pub open spec fn is_weak(p: Option<String>) -> bool {
    match p {
        Some(s) => utf8_len(s@) < 8 || !classes_of(s@).has_uppercase
            || !classes_of(s@).has_lowercase || !classes_of(s@).has_digits,
        None => true,
    }
}

/// The number of entries with a weak password.
pub open spec fn weak_count(es: Seq<VaultEntry>) -> nat
    decreases es.len(),
{
    if es.len() == 0 {
        0
    } else {
        weak_count(es.drop_last()) + if is_weak(es.last().password) {
            1nat
        } else {
            0
        }
    }
}

/// The number of entries with a weak password.
pub fn count_weak_passwords(entries: &Vec<VaultEntry>) -> (r: usize)
    ensures
        r == weak_count(entries@),
{
    let mut count: usize = 0;
    let mut i: usize = 0;
    while i < entries.len()
        invariant
            i <= entries@.len(),
            count == weak_count(entries@.subrange(0, i as int)),
            count <= i,
        decreases entries@.len() - i,
    {
        proof {
            let s = entries@.subrange(0, i + 1);
            assert(s.drop_last() =~= entries@.subrange(0, i as int));
            assert(s.last() == entries@[i as int]);
        }
        let weak = match &entries[i].password {
            Some(p) => {
                let c = char_classes(p.as_str());
                utf8_length(p.as_str()) < 8 || !c.has_uppercase || !c.has_lowercase || !c.has_digits
            },
            None => true,
        };
        if weak {
            count = count + 1;
        }
        i = i + 1;
    }
    assert(entries@.subrange(0, i as int) =~= entries@);
    count
}

} // verus!
