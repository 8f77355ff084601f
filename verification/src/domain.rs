//! Validated subscriber names and email addresses.

use unicode_segmentation::UnicodeSegmentation;
use vstd::prelude::*;
use vstd::string::StringExecFns;

verus! {

/// The longest name accepted, in grapheme clusters.
pub const MAX_NAME_GRAPHEMES: usize = 256;

/// The number of extended grapheme clusters of `s`, as
/// `unicode_segmentation` counts them.
pub uninterp spec fn grapheme_count(s: Seq<char>) -> nat;

/// Whether `c` has the Unicode property `White_Space`, as `char::is_whitespace`
/// decides it.
pub uninterp spec fn white_space(c: char) -> bool;

/// The characters that no name may hold.
pub open spec fn is_forbidden(c: char) -> bool {
    c == '/' || c == '(' || c == ')' || c == '"' || c == '<' || c == '>' || c == '\\' || c == '{'
        || c == '}'
}

/// Nothing would be left of `s` once the white space is trimmed off its ends.
pub open spec fn is_blank(s: Seq<char>) -> bool {
    forall|i: int| 0 <= i < s.len() ==> white_space(#[trigger] s[i])
}

/// `s` holds at least one forbidden character.
pub open spec fn has_forbidden(s: Seq<char>) -> bool {
    exists|i: int| 0 <= i < s.len() && is_forbidden(#[trigger] s[i])
}

/// `s` has more grapheme clusters than a name may have.
pub open spec fn is_too_long(s: Seq<char>) -> bool {
    grapheme_count(s) > MAX_NAME_GRAPHEMES
}

/// What makes a display name acceptable.
pub open spec fn name_is_valid(s: Seq<char>) -> bool {
    !is_blank(s) && !is_too_long(s) && !has_forbidden(s)
}

/// Calls `UnicodeSegmentation::graphemes` with extended clusters and counts
/// what it yields. The count is a function of the text alone; nothing else is
/// claimed of it.
#[verifier::external_body]
fn count_graphemes(s: &str) -> (n: usize)
    ensures
        n == grapheme_count(s@),
{
    s.graphemes(true).count()
}

/// Calls `char::is_whitespace`, whose answer for a character never changes.
#[verifier::external_body]
fn is_whitespace(c: char) -> (b: bool)
    ensures
        b == white_space(c),
{
    c.is_whitespace()
}

fn is_forbidden_char(c: char) -> (b: bool)
    ensures
        b == is_forbidden(c),
{
    c == '/' || c == '(' || c == ')' || c == '"' || c == '<' || c == '>' || c == '\\' || c == '{'
        || c == '}'
}

/// Whether every character of `s` is white space, and whether one of them is
/// forbidden.
fn scan_name(s: &str) -> (r: (bool, bool))
    ensures
        r.0 == is_blank(s@),
        r.1 == has_forbidden(s@),
{
    let mut blank = true;
    let mut forbidden = false;
    for c in it: s.chars()
        invariant
            it.seq() == s@,
            blank == is_blank(s@.take(it.index() as int)),
            forbidden == has_forbidden(s@.take(it.index() as int)),
    {
        proof {
            let i = it.index() as int;
            let before = s@.take(i);
            let after = s@.take(i + 1);
            assert(c == s@[i]);
            assert(after =~= before.push(c));
            assert(after[i] == c);
            if has_forbidden(before) {
                let j = choose|j: int| 0 <= j < i && is_forbidden(#[trigger] before[j]);
                assert(is_forbidden(after[j]));
            }
            if has_forbidden(after) && !is_forbidden(c) {
                let j = choose|j: int| 0 <= j <= i && is_forbidden(#[trigger] after[j]);
                assert(is_forbidden(before[j]));
            }
            if is_blank(after) {
                assert forall|j: int| 0 <= j < i implies white_space(#[trigger] before[j]) by {
                    assert(white_space(after[j]));
                }
            }
        }
        if !is_whitespace(c) {
            blank = false;
        }
        if is_forbidden_char(c) {
            forbidden = true;
        }
    }
    proof {
        assert(s@.take(s@.len() as int) =~= s@);
    }
    (blank, forbidden)
}

/// What `SubscriberName::parse` answers for a name it refuses.
pub open spec fn name_error(s: Seq<char>) -> Seq<char> {
    "Invalid subscriber name: "@ + s
}

/// What `validator::validate_email` answers for `s`: the address grammar of
/// the HTML living standard, with the length limits of RFC 5321.
pub uninterp spec fn email_syntax(s: Seq<char>) -> bool;

/// `s` has exactly one `@`, with at least one character before it and at
/// least one after it.
pub open spec fn has_local_part_and_domain(s: Seq<char>) -> bool {
    exists|at: int|
        0 < at < s.len() - 1 && #[trigger] s[at] == '@' && forall|i: int|
            0 <= i < s.len() && i != at ==> s[i] != '@'
}

/// What makes an email address acceptable.
pub open spec fn email_is_valid(s: Seq<char>) -> bool {
    has_local_part_and_domain(s) && email_syntax(s)
}

/// What `SubscriberEmail::parse` answers for an address it refuses.
pub open spec fn email_error(s: Seq<char>) -> Seq<char> {
    "Invalid email address: "@ + s
}

/// Calls `validator::validate_email`. Its verdict is a function of the text
/// alone. An address that it accepts was split at its last `@` into a local
/// part and a domain, each matched against a pattern that admits neither the
/// empty text nor an `@`.
#[verifier::external_body]
fn validate_email(s: &str) -> (valid: bool)
    ensures
        valid == email_syntax(s@),
        valid ==> has_local_part_and_domain(s@),
{
    validator::validate_email(s)
}

/// A display name that has passed validation.
#[derive(Debug)]
pub struct SubscriberName(String);

impl View for SubscriberName {
    type V = Seq<char>;

    closed spec fn view(&self) -> Seq<char> {
        self.0@
    }
}

impl SubscriberName {
    #[verifier::type_invariant]
    spec fn well_formed(self) -> bool {
        name_is_valid(self.0@)
    }

    /// Accepts `s` as a name where it is not blank, has at most
    /// `MAX_NAME_GRAPHEMES` grapheme clusters and holds no forbidden character.
    pub fn parse(s: String) -> (r: Result<Self, String>)
        ensures
            match r {
                Ok(name) => name_is_valid(s@) && name@ == s@,
                Err(message) => !name_is_valid(s@) && message@ == name_error(s@),
            },
    {
        let (is_empty_or_whitespace, contains_forbidden_chars) = scan_name(s.as_str());
        let is_too_long = count_graphemes(s.as_str()) > MAX_NAME_GRAPHEMES;
        if is_empty_or_whitespace || is_too_long || contains_forbidden_chars {
            Err(String::from_str("Invalid subscriber name: ").concat(s.as_str()))
        } else {
            Ok(Self(s))
        }
    }

    /// The name as text.
    pub fn as_ref(&self) -> (s: &str)
        ensures
            s@ == self@,
            name_is_valid(s@),
    {
        proof {
            use_type_invariant(self);
        }
        self.0.as_str()
    }
}

impl Clone for SubscriberName {
    fn clone(&self) -> (r: Self)
        ensures
            r@ == self@,
    {
        proof {
            use_type_invariant(self);
        }
        Self(self.0.clone())
    }
}

/// An email address that has passed validation.
#[derive(Debug)]
pub struct SubscriberEmail(String);

impl View for SubscriberEmail {
    type V = Seq<char>;

    closed spec fn view(&self) -> Seq<char> {
        self.0@
    }
}

impl SubscriberEmail {
    #[verifier::type_invariant]
    spec fn well_formed(self) -> bool {
        email_is_valid(self.0@)
    }

    /// Accepts `s` as an address where the address grammar admits it.
    pub fn parse(s: String) -> (r: Result<Self, String>)
        ensures
            match r {
                Ok(email) => email_is_valid(s@) && email@ == s@,
                Err(message) => !email_is_valid(s@) && message@ == email_error(s@),
            },
    {
        if validate_email(s.as_str()) {
            Ok(Self(s))
        } else {
            Err(String::from_str("Invalid email address: ").concat(s.as_str()))
        }
    }

    /// The address as text.
    pub fn as_ref(&self) -> (s: &str)
        ensures
            s@ == self@,
            email_is_valid(s@),
    {
        proof {
            use_type_invariant(self);
        }
        self.0.as_str()
    }
}

impl Clone for SubscriberEmail {
    fn clone(&self) -> (r: Self)
        ensures
            r@ == self@,
    {
        proof {
            use_type_invariant(self);
        }
        Self(self.0.clone())
    }
}

/// Someone who asks to be subscribed: a valid name with a valid address.
#[derive(Debug)]
pub struct Subscriber {
    pub name: SubscriberName,
    pub email: SubscriberEmail,
}

impl Clone for Subscriber {
    fn clone(&self) -> (r: Self)
        ensures
            r.name@ == self.name@,
            r.email@ == self.email@,
    {
        Self { name: self.name.clone(), email: self.email.clone() }
    }
}

/// Every name that is blank (the empty name is), that has more than
/// `MAX_NAME_GRAPHEMES` grapheme clusters or that holds a forbidden character
/// is refused, and every other name is accepted: one of exactly
/// `MAX_NAME_GRAPHEMES` clusters too.
pub proof fn lemma_name_rules(s: Seq<char>)
    ensures
        s.len() == 0 ==> is_blank(s),
        is_blank(s) || has_forbidden(s) || grapheme_count(s) > MAX_NAME_GRAPHEMES
            ==> !name_is_valid(s),
        !is_blank(s) && !has_forbidden(s) && grapheme_count(s) <= MAX_NAME_GRAPHEMES
            ==> name_is_valid(s),
{
}

/// Every address that is empty, that has no `@`, that has nothing before its
/// `@` or that has nothing after it is refused.
pub proof fn lemma_malformed_email_is_refused(s: Seq<char>)
    requires
        s.len() == 0 || !s.contains('@') || s.first() == '@' || s.last() == '@',
    ensures
        !email_is_valid(s),
{
    if has_local_part_and_domain(s) {
        let at = choose|at: int|
            0 < at < s.len() - 1 && #[trigger] s[at] == '@' && forall|i: int|
                0 <= i < s.len() && i != at ==> s[i] != '@';
        assert(s.contains('@'));
        assert(s[0] != '@');
        assert(s[s.len() - 1] != '@');
    }
}

} // verus!
