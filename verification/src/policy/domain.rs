//! Domain names and the patterns that an allowlist is made of.

use std::str::FromStr;

use vstd::prelude::*;
use vstd::slice::*;
use vstd::string::*;

use crate::bytes::same_bytes;
use crate::policy::PolicyConfigError;

verus! {

pub const MAX_DOMAIN_LEN: usize = 253;

pub const MAX_LABEL_LEN: usize = 63;

pub const DOT: u8 = 46;

pub const HYPHEN: u8 = 45;

/// A byte that may stand in a label: an ASCII letter, a digit or a hyphen.
pub open spec fn is_label_byte(byte: u8) -> bool {
    ||| 48 <= byte <= 57
    ||| 65 <= byte <= 90
    ||| 97 <= byte <= 122
    ||| byte == HYPHEN
}

/// A label: one to sixty-three letters, digits and hyphens, with no hyphen at either end.
pub open spec fn is_label(label: Seq<u8>) -> bool {
    &&& 0 < label.len() <= MAX_LABEL_LEN
    &&& label[0] != HYPHEN
    &&& label[label.len() - 1] != HYPHEN
    &&& forall|i: int| 0 <= i < label.len() ==> is_label_byte(#[trigger] label[i])
}

pub open spec fn lower(byte: u8) -> u8 {
    if 65 <= byte <= 90 {
        (byte + 32) as u8
    } else {
        byte
    }
}

pub open spec fn lowercase(bytes: Seq<u8>) -> Seq<u8> {
    Seq::new(bytes.len(), |i: int| lower(bytes[i]))
}

/// Where the label that begins at `from` ends: at the next dot or at the end of the name.
pub open spec fn label_end(name: Seq<u8>, from: int) -> int
    decreases name.len() - from,
{
    if 0 <= from < name.len() && name[from] != DOT {
        label_end(name, from + 1)
    } else {
        from
    }
}

/// Whether everything from `from` on is labels separated by single dots.
pub open spec fn labels_valid(name: Seq<u8>, from: int) -> bool
    decreases name.len() - from,
{
    let end = label_end(name, from);
    if !is_label(name.subrange(from, end)) {
        false
    } else if from <= end < name.len() {
        labels_valid(name, end + 1)
    } else {
        true
    }
}

pub open spec fn is_domain(name: Seq<u8>) -> bool {
    0 < name.len() <= MAX_DOMAIN_LEN && labels_valid(name, 0)
}

/// A domain name in its canonical lower-case form; `None` for what is no domain name.
pub open spec fn normalized(name: Seq<u8>) -> Option<Seq<u8>> {
    if is_domain(name) {
        Some(lowercase(name))
    } else {
        None
    }
}

/// A name without the dots at its end.
pub open spec fn trim_dots(name: Seq<u8>) -> Seq<u8>
    decreases name.len(),
{
    if name.len() > 0 && name[name.len() - 1] == DOT {
        trim_dots(name.subrange(0, name.len() - 1))
    } else {
        name
    }
}

/// Whether a name consists of at least one more label in front of the given suffix.
pub open spec fn is_subdomain(name: Seq<u8>, suffix: Seq<u8>) -> bool {
    &&& name.len() > suffix.len()
    &&& name[name.len() - suffix.len() - 1] == DOT
    &&& name.subrange(name.len() - suffix.len(), name.len() as int) == suffix
}

pub fn label_byte(byte: u8) -> (valid: bool)
    ensures
        valid == is_label_byte(byte),
{
    (48 <= byte && byte <= 57) || (65 <= byte && byte <= 90) || (97 <= byte && byte <= 122) || byte
        == HYPHEN
}

pub fn to_lower(byte: u8) -> (lowered: u8)
    ensures
        lowered == lower(byte),
{
    if 65 <= byte && byte <= 90 {
        byte + 32
    } else {
        byte
    }
}

/// Whether the bytes between two positions form a label.
pub fn valid_label(name: &[u8], from: usize, end: usize) -> (valid: bool)
    requires
        from <= end <= name@.len(),
    ensures
        valid == is_label(name@.subrange(from as int, end as int)),
{
    let ghost label = name@.subrange(from as int, end as int);
    if end == from || end - from > MAX_LABEL_LEN {
        return false;
    }
    assert(label[0] == name@[from as int]);
    assert(label[label.len() - 1] == name@[end - 1]);
    if name[from] == HYPHEN || name[end - 1] == HYPHEN {
        return false;
    }
    let mut i: usize = from;
    while i < end
        invariant
            from <= i <= end <= name@.len(),
            label == name@.subrange(from as int, end as int),
            forall|j: int| 0 <= j < i - from ==> is_label_byte(#[trigger] label[j]),
        decreases end - i,
    {
        assert(label[i - from] == name@[i as int]);
        if !label_byte(name[i]) {
            return false;
        }
        i += 1;
    }
    true
}

/// A lower-case copy.
pub fn lowered(name: &[u8]) -> (copy: Vec<u8>)
    ensures
        copy@ == lowercase(name@),
{
    let mut copy: Vec<u8> = Vec::new();
    let mut i: usize = 0;
    while i < name.len()
        invariant
            i <= name@.len(),
            copy@.len() == i,
            forall|j: int| 0 <= j < i ==> copy@[j] == lower(name@[j]),
        decreases name@.len() - i,
    {
        copy.push(to_lower(name[i]));
        i += 1;
    }
    assert(copy@ =~= lowercase(name@));
    copy
}

proof fn lemma_label_end(name: Seq<u8>, from: int, end: int)
    requires
        0 <= from <= end <= name.len(),
        forall|j: int| from <= j < end ==> name[j] != DOT,
        end == name.len() || name[end] == DOT,
    ensures
        label_end(name, from) == end,
    decreases end - from,
{
    if from < end {
        lemma_label_end(name, from + 1, end);
    }
}

/// The canonical form of a domain name.
pub fn normalize_domain(value: &[u8]) -> (name: Option<Vec<u8>>)
    ensures
        match name {
            Some(canonical) => normalized(value@) == Some(canonical@),
            None => normalized(value@) is None,
        },
{
    if value.len() == 0 || value.len() > MAX_DOMAIN_LEN {
        return None;
    }
    let mut from: usize = 0;
    let mut finished = false;
    while !finished
        invariant
            0 < value@.len() <= MAX_DOMAIN_LEN,
            from <= value@.len(),
            finished ==> labels_valid(value@, 0),
            !finished ==> labels_valid(value@, 0) == labels_valid(value@, from as int),
        decreases value@.len() - from + (if finished {
            0int
        } else {
            1
        }),
    {
        let mut end: usize = from;
        while end < value.len() && value[end] != DOT
            invariant
                from <= end <= value@.len(),
                forall|j: int| from <= j < end ==> value@[j] != DOT,
            decreases value@.len() - end,
        {
            end += 1;
        }
        proof {
            lemma_label_end(value@, from as int, end as int);
        }
        if !valid_label(value, from, end) {
            return None;
        }
        if end < value.len() {
            from = end + 1;
        } else {
            finished = true;
        }
    }
    Some(lowered(value))
}

/// A pattern that stands for one domain name or, with a wildcard, for all names below one.
#[derive(Debug, Clone)]
pub struct DomainPattern {
    pub suffix: Vec<u8>,
    pub wildcard: bool,
}

pub struct PatternView {
    pub suffix: Seq<u8>,
    pub wildcard: bool,
}

impl View for DomainPattern {
    type V = PatternView;

    open spec fn view(&self) -> PatternView {
        PatternView { suffix: self.suffix@, wildcard: self.wildcard }
    }
}

impl PatternView {
    /// Whether the pattern stands for a name, which may end in dots and is compared without
    /// regard to case.
    pub open spec fn matches(self, name: Seq<u8>) -> bool {
        match normalized(trim_dots(name)) {
            None => false,
            Some(canonical) => if self.wildcard {
                is_subdomain(canonical, self.suffix)
            } else {
                canonical == self.suffix
            },
        }
    }
}

/// The bytes `*.`, which open a wildcard pattern.
pub open spec fn has_wildcard(text: Seq<u8>) -> bool {
    text.len() >= 2 && text[0] == 42 && text[1] == DOT
}

/// What a pattern's text says; `None` where the part behind a wildcard is no domain name.
pub open spec fn pattern_of(text: Seq<u8>) -> Option<PatternView> {
    let rest = if has_wildcard(text) {
        text.subrange(2, text.len() as int)
    } else {
        text
    };
    match normalized(rest) {
        Some(suffix) => Some(PatternView { suffix, wildcard: has_wildcard(text) }),
        None => None,
    }
}

impl DomainPattern {
    /// The pattern that a text spells: a domain name, or one behind `*.`.
    pub fn parse_text(value: &str) -> (parsed: Result<DomainPattern, PolicyConfigError>)
        ensures
            match parsed {
                Ok(pattern) => pattern_of(value.spec_bytes()) == Some(pattern@),
                Err(error) => {
                    &&& pattern_of(value.spec_bytes()) is None
                    &&& error@ == (if value.spec_bytes().len() > 0 && value.spec_bytes()[0] == 42
                        && !has_wildcard(value.spec_bytes()) {
                        "wildcard must be the complete first label"@
                    } else {
                        "invalid domain pattern"@
                    })
                },
            },
    {
        let text: &[u8] = value.as_bytes();
        let wildcard: bool = text.len() >= 2 && text[0] == 42 && text[1] == DOT;
        if text.len() > 0 && text[0] == 42 && !wildcard {
            proof {
                lemma_star_is_no_domain(text@);
            }
            return Err(PolicyConfigError::new("wildcard must be the complete first label"));
        }
        let rest: &[u8] = if wildcard {
            slice_subrange(text, 2, text.len())
        } else {
            text
        };
        match normalize_domain(rest) {
            Some(suffix) => Ok(DomainPattern { suffix, wildcard }),
            None => Err(PolicyConfigError::new("invalid domain pattern")),
        }
    }

    /// Whether the pattern stands for a name.
    pub fn matches(&self, name: &str) -> (matched: bool)
        ensures
            matched == self@.matches(name.spec_bytes()),
    {
        self.matches_bytes(name.as_bytes())
    }

    pub fn matches_bytes(&self, name: &[u8]) -> (matched: bool)
        ensures
            matched == self@.matches(name@),
    {
        let mut end: usize = name.len();
        assert(name@.subrange(0, end as int) =~= name@);
        while end > 0 && name[end - 1] == DOT
            invariant
                end <= name@.len(),
                trim_dots(name@) == trim_dots(name@.subrange(0, end as int)),
            decreases end,
        {
            end -= 1;
            assert(name@.subrange(0, end + 1).subrange(0, end as int) =~= name@.subrange(
                0,
                end as int,
            ));
        }
        assert(trim_dots(name@) == name@.subrange(0, end as int));
        match normalize_domain(slice_subrange(name, 0, end)) {
            None => false,
            Some(canonical) => {
                if !self.wildcard {
                    same_bytes(canonical.as_slice(), self.suffix.as_slice())
                } else if canonical.len() <= self.suffix.len() {
                    false
                } else {
                    let cut: usize = canonical.len() - self.suffix.len();
                    canonical[cut - 1] == DOT && same_bytes(
                        slice_subrange(canonical.as_slice(), cut, canonical.len()),
                        self.suffix.as_slice(),
                    )
                }
            },
        }
    }
}

proof fn lemma_star_is_no_domain(text: Seq<u8>)
    requires
        text.len() > 0,
        text[0] == 42,
    ensures
        normalized(text) is None,
{
    let end = label_end(text, 0);
    lemma_label_end_bounds(text, 0);
    assert(label_end(text, 0) == label_end(text, 1));
    lemma_label_end_bounds(text, 1);
    let label = text.subrange(0, end);
    assert(label[0] == text[0]);
    assert(!is_label_byte(label[0]));
}

proof fn lemma_label_end_bounds(name: Seq<u8>, from: int)
    requires
        0 <= from <= name.len(),
    ensures
        from <= label_end(name, from) <= name.len(),
    decreases name.len() - from,
{
    if from < name.len() && name[from] != DOT {
        lemma_label_end_bounds(name, from + 1);
    }
}

impl FromStr for DomainPattern {
    type Err = PolicyConfigError;

    fn from_str(value: &str) -> (parsed: Result<DomainPattern, PolicyConfigError>)
        ensures
            match parsed {
                Ok(pattern) => pattern_of(value.spec_bytes()) == Some(pattern@),
                Err(error) => {
                    &&& pattern_of(value.spec_bytes()) is None
                    &&& error@ == (if value.spec_bytes().len() > 0 && value.spec_bytes()[0] == 42
                        && !has_wildcard(value.spec_bytes()) {
                        "wildcard must be the complete first label"@
                    } else {
                        "invalid domain pattern"@
                    })
                },
            },
    {
        DomainPattern::parse_text(value)
    }
}

} // verus!
