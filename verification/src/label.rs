//! Host labels: folding to lowercase, the label alphabet and the blocked
//! labels.

use vstd::prelude::*;
use vstd::utf8::is_ascii_chars;

verus! {

/// The characters a host label may hold after folding: `a`-`z`, `0`-`9`, `-`.
pub open spec fn is_label_char(c: char) -> bool {
    ('a' <= c && c <= 'z') || ('0' <= c && c <= '9') || c == '-'
}

/// A label is text made of label characters only. The empty text is a label.
pub open spec fn is_label(s: Seq<char>) -> bool {
    forall|i: int| 0 <= i < s.len() ==> is_label_char(#[trigger] s[i])
}

/// `A`-`Z` go to `a`-`z`; every other character stays.
pub open spec fn ascii_lower(c: char) -> char {
    if 'A' <= c && c <= 'Z' {
        ((c as u8 + 32) as u8) as char
    } else {
        c
    }
}

pub open spec fn ascii_lowercase(s: Seq<char>) -> Seq<char> {
    Seq::new(s.len(), |i: int| ascii_lower(s[i]))
}

/// What `str::to_lowercase` returns: the Unicode lowercase mapping of the
/// text, which is not written out here.
pub uninterp spec fn unicode_lowercase(s: Seq<char>) -> Seq<char>;

/// The lowercase fold of a requested label: the ASCII fold of ASCII text,
/// the Unicode mapping of any other.
pub open spec fn lowercase(s: Seq<char>) -> Seq<char> {
    if is_ascii_chars(s) {
        ascii_lowercase(s)
    } else {
        unicode_lowercase(s)
    }
}

/// Why a requested label is refused.
#[derive(Debug, Clone, Copy, PartialEq, Eq, Structural)]
pub enum LabelError {
    /// The folded label holds a character outside the label alphabet.
    Invalid,
    /// The folded label is one of the blocked labels.
    Blocked,
}

/// What checking a folded label gives: invalid if it holds a character
/// outside the label alphabet, refused if it is blocked, else the label.
pub open spec fn checked(label: Seq<char>, blocked: Seq<Seq<char>>) -> Result<
    Seq<char>,
    LabelError,
> {
    if !is_label(label) {
        Err(LabelError::Invalid)
    } else if blocked.contains(label) {
        Err(LabelError::Blocked)
    } else {
        Ok(label)
    }
}

/// The outcome of sanitizing `requested` against the blocked labels.
pub open spec fn sanitized(requested: Seq<char>, blocked: Seq<Seq<char>>) -> Result<
    Seq<char>,
    LabelError,
> {
    checked(lowercase(requested), blocked)
}

/// The texts that a list of strings holds, in order.
pub open spec fn texts(v: Seq<String>) -> Seq<Seq<char>> {
    Seq::new(v.len(), |i: int| v[i]@)
}

/// The text of a result that holds a string.
pub open spec fn text_result<E>(r: Result<String, E>) -> Result<Seq<char>, E> {
    match r {
        Ok(text) => Ok(text@),
        Err(e) => Err(e),
    }
}

/// Sanitizing once more what sanitizing gave.
pub open spec fn sanitized_again(
    r: Result<Seq<char>, LabelError>,
    blocked: Seq<Seq<char>>,
) -> Result<Seq<char>, LabelError> {
    match r {
        Ok(label) => sanitized(label, blocked),
        Err(e) => Err(e),
    }
}

/// A label is its own lowercase fold.
pub proof fn lemma_lowercase_fixes_labels(label: Seq<char>)
    requires
        is_label(label),
    ensures
        lowercase(label) == label,
{
    assert(is_ascii_chars(label)) by {
        assert forall|i: int| 0 <= i < label.len() implies '\0' <= #[trigger] label[i]
            <= '\u{7f}' by {
            assert(is_label_char(label[i]));
        }
    }
    assert(ascii_lowercase(label) =~= label) by {
        assert forall|i: int| 0 <= i < label.len() implies ascii_lower(label[i])
            == label[i] by {
            assert(is_label_char(label[i]));
        }
    }
}

/// Folding ASCII text twice is folding it once.
pub proof fn lemma_fold_is_idempotent_on_ascii(s: Seq<char>)
    requires
        is_ascii_chars(s),
    ensures
        lowercase(lowercase(s)) == lowercase(s),
{
    let once = ascii_lowercase(s);
    assert(is_ascii_chars(once)) by {
        assert forall|i: int| 0 <= i < once.len() implies '\0' <= #[trigger] once[i]
            <= '\u{7f}' by {
            assert('\0' <= s[i] <= '\u{7f}');
        }
    }
    assert(ascii_lowercase(once) =~= once);
}

/// Sanitizing is idempotent: an accepted label, sanitized again, is accepted
/// unchanged, and a refusal stays the same refusal.
pub proof fn lemma_sanitize_idempotent(requested: Seq<char>, blocked: Seq<Seq<char>>)
    ensures
        sanitized_again(sanitized(requested, blocked), blocked) == sanitized(requested, blocked),
{
    if let Ok(label) = sanitized(requested, blocked) {
        lemma_lowercase_fixes_labels(label);
    }
}

/// Whatever else is asked, a requested label whose fold holds a character
/// outside `a`-`z`, `0`-`9`, `-` is refused as invalid.
pub proof fn lemma_foreign_character_is_invalid(
    requested: Seq<char>,
    blocked: Seq<Seq<char>>,
    i: int,
)
    requires
        0 <= i < lowercase(requested).len(),
        !is_label_char(lowercase(requested)[i]),
    ensures
        sanitized(requested, blocked) == Err::<Seq<char>, LabelError>(LabelError::Invalid),
{
}

/// `str::to_ascii_lowercase` of std: `A`-`Z` become `a`-`z`, and every
/// other character, inside ASCII or outside, stays.
#[verifier::external_body]
pub(crate) fn to_ascii_lowercase(s: &str) -> (r: String)
    ensures
        r@ == ascii_lowercase(s@),
{
    s.to_ascii_lowercase()
}

/// `str::to_lowercase` of std: the Unicode lowercase mapping of the text,
/// which is only named here.
#[verifier::external_body]
fn to_lowercase(s: &str) -> (r: String)
    ensures
        r@ == unicode_lowercase(s@),
{
    s.to_lowercase()
}

/// Folds text to lowercase: ASCII text by the ASCII rule, any other text by
/// the Unicode mapping.
pub fn fold(s: &str) -> (r: String)
    ensures
        r@ == lowercase(s@),
{
    if s.is_ascii() {
        to_ascii_lowercase(s)
    } else {
        to_lowercase(s)
    }
}

/// Whether `s` is made of label characters only.
pub fn is_valid_label(s: &str) -> (r: bool)
    ensures
        r == is_label(s@),
{
    if !s.is_ascii() {
        proof {
            let i = choose|i: int| 0 <= i < s@.len() && !('\0' <= #[trigger] s@[i] <= '\u{7f}');
            assert(!is_label_char(s@[i]));
        }
        return false;
    }
    let n = s.unicode_len();
    let mut i: usize = 0;
    while i < n
        invariant
            n == s@.len(),
            i <= n,
            is_ascii_chars(s@),
            forall|j: int| 0 <= j < i ==> is_label_char(#[trigger] s@[j]),
        decreases n - i,
    {
        let b = s.get_ascii(i);
        let ok = (b >= 97 && b <= 122) || (b >= 48 && b <= 57) || b == 45;
        proof {
            let c = s@[i as int];
            assert('\0' <= c <= '\u{7f}');
            assert(c as u8 == b);
            assert(ok == is_label_char(c));
        }
        if !ok {
            return false;
        }
        i = i + 1;
    }
    true
}

/// Whether `label` is one of `list`.
pub fn contains_text(list: &Vec<String>, label: &String) -> (r: bool)
    ensures
        r == texts(list@).contains(label@),
{
    let mut i: usize = 0;
    while i < list.len()
        invariant
            i <= list.len(),
            forall|j: int| 0 <= j < i ==> texts(list@)[j] != label@,
        decreases list.len() - i,
    {
        if list[i] == *label {
            assert(texts(list@)[i as int] == label@);
            return true;
        }
        i = i + 1;
    }
    false
}

/// Checks a label that was folded to lowercase: its alphabet first, then
/// the blocked labels.
pub fn check_label(label: String, blocked: &Vec<String>) -> (r: Result<String, LabelError>)
    ensures
        text_result(r) == checked(label@, texts(blocked@)),
{
    if !is_valid_label(label.as_str()) {
        return Err(LabelError::Invalid);
    }
    if contains_text(blocked, &label) {
        return Err(LabelError::Blocked);
    }
    Ok(label)
}

/// Folds a requested label to lowercase and checks it: a character outside
/// `a`-`z`, `0`-`9`, `-` makes it invalid; a blocked label is refused.
pub fn sanitize_sub_domain(requested: &str, blocked: &Vec<String>) -> (r: Result<
    String,
    LabelError,
>)
    ensures
        text_result(r) == sanitized(requested@, texts(blocked@)),
{
    check_label(fold(requested), blocked)
}

} // verus!
