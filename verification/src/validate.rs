//! Metadata validation for publish requests.
//!
//! Enforces the required-field, license, URL-shape, keyword and category
//! rules on the manifest extracted from an uploaded archive, with the stable
//! rejection message for each rule.

use vstd::prelude::*;

use crate::strutil::{comma_join, has_prefix, str_has_prefix};

verus! {

/// How many keywords a package may declare.
pub const MAX_KEYWORDS: usize = 5;

/// How many characters one keyword may have.
pub const MAX_KEYWORD_LEN: usize = 20;

/// How many categories a package may declare.
pub const MAX_CATEGORIES: usize = 5;

#[derive(Clone, Debug, PartialEq, Eq)]
pub enum ValidateError {
    /// Required manifest fields are absent or empty; the flags say which.
    MissingMetadata { description: bool, license: bool },
    /// The declared license expression does not parse.
    InvalidLicense,
    /// A URL field does not begin with `http://` or `https://`.
    UrlScheme { field: String, url: String },
    /// A URL field does not parse as a well-formed URL.
    UrlInvalid { field: String, url: String },
    /// More keywords than allowed.
    TooManyKeywords,
    /// One keyword exceeds the length ceiling.
    KeywordTooLong { keyword: String },
    /// One keyword falls outside the keyword grammar.
    InvalidKeyword { keyword: String },
    /// More categories than allowed.
    TooManyCategories,
}

#[verifier::ext_equal]
pub ghost enum ValidateErrorView {
    MissingMetadata { description: bool, license: bool },
    InvalidLicense,
    UrlScheme { field: Seq<char>, url: Seq<char> },
    UrlInvalid { field: Seq<char>, url: Seq<char> },
    TooManyKeywords,
    KeywordTooLong { keyword: Seq<char> },
    InvalidKeyword { keyword: Seq<char> },
    TooManyCategories,
}

impl View for ValidateError {
    type V = ValidateErrorView;

    open spec fn view(&self) -> ValidateErrorView {
        match self {
            ValidateError::MissingMetadata { description, license } => ValidateErrorView::MissingMetadata {
                description: *description,
                license: *license,
            },
            ValidateError::InvalidLicense => ValidateErrorView::InvalidLicense,
            ValidateError::UrlScheme { field, url } => ValidateErrorView::UrlScheme {
                field: field@,
                url: url@,
            },
            ValidateError::UrlInvalid { field, url } => ValidateErrorView::UrlInvalid {
                field: field@,
                url: url@,
            },
            ValidateError::TooManyKeywords => ValidateErrorView::TooManyKeywords,
            ValidateError::KeywordTooLong { keyword } => ValidateErrorView::KeywordTooLong {
                keyword: keyword@,
            },
            ValidateError::InvalidKeyword { keyword } => ValidateErrorView::InvalidKeyword {
                keyword: keyword@,
            },
            ValidateError::TooManyCategories => ValidateErrorView::TooManyCategories,
        }
    }
}

/// The view of each string in a sequence.
pub open spec fn seq_views(s: Seq<String>) -> Seq<Seq<char>> {
    s.map_values(|x: String| x@)
}

/// Whether an optional field is absent or empty.
pub open spec fn blank_view(o: Option<Seq<char>>) -> bool {
    match o {
        None => true,
        Some(s) => s.len() == 0,
    }
}

fn is_blank(o: &Option<String>) -> (r: bool)
    ensures
        r == blank_view(crate::registry::opt_view(*o)),
{
    match o {
        None => true,
        Some(s) => s.as_str().is_empty(),
    }
}

/// The names of the required manifest fields that are absent or empty, in
/// the order the rules are checked.
pub open spec fn missing_field_names(description: bool, license: bool) -> Seq<Seq<char>> {
    let d: Seq<Seq<char>> = if description {
        seq!["description"@]
    } else {
        Seq::empty()
    };
    let l: Seq<Seq<char>> = if license {
        seq!["license"@]
    } else {
        Seq::empty()
    };
    d + l
}

/// The combined message naming every missing required field.
pub open spec fn spec_missing_metadata_message(missing: Seq<Seq<char>>) -> Seq<char> {
    "missing or empty metadata fields: "@ + comma_join(missing)
        + ". Please see https://doc.rust-lang.org/cargo/reference/manifest.html for how to upload metadata"@
}

/// Builds the combined message for absent or empty required metadata fields,
/// comma-separated in the order checked.
pub fn missing_metadata_error_message(missing: &[&str]) -> (r: String)
    ensures
        r@ == spec_missing_metadata_message(missing@.map_values(|x: &str| x@)),
{
    let mut s = String::from_str("missing or empty metadata fields: ");
    s.append(crate::strutil::comma_join_exec(missing).as_str());
    s.append(
        ". Please see https://doc.rust-lang.org/cargo/reference/manifest.html for how to upload metadata",
    );
    s
}

/// The rejection, if any, for the required-field rule: description and
/// (license or license file) must be present and non-empty, with every
/// missing field reported at once.
pub open spec fn required_fields_rejection(
    description: Option<Seq<char>>,
    license: Option<Seq<char>>,
    license_file: Option<Seq<char>>,
) -> Option<ValidateErrorView> {
    let missing_description = blank_view(description);
    let missing_license = blank_view(license) && blank_view(license_file);
    if missing_description || missing_license {
        Some(
            ValidateErrorView::MissingMetadata {
                description: missing_description,
                license: missing_license,
            },
        )
    } else {
        None
    }
}

/// Checks that a description and a license (or a license file) are present
/// and non-empty; reports every missing field in one combined error.
pub fn check_required_fields(
    description: &Option<String>,
    license: &Option<String>,
    license_file: &Option<String>,
) -> (r: Result<(), ValidateError>)
    ensures
        ({
            let rej = required_fields_rejection(
                crate::registry::opt_view(*description),
                crate::registry::opt_view(*license),
                crate::registry::opt_view(*license_file),
            );
            match r {
                Ok(()) => rej is None,
                Err(e) => Some(e@) == rej,
            }
        }),
{
    let missing_description = is_blank(description);
    let missing_license = is_blank(license) && is_blank(license_file);
    if missing_description || missing_license {
        Err(
            ValidateError::MissingMetadata {
                description: missing_description,
                license: missing_license,
            },
        )
    } else {
        Ok(())
    }
}

/// Whether a string parses as a valid license expression.
pub uninterp spec fn license_expr_ok(s: Seq<char>) -> bool;

/// Relies on spdx's `Expression::parse`: whether an expression is accepted
/// depends on the expression string alone.
#[verifier::external_body]
fn parse_license_expr(s: &str) -> (r: bool)
    ensures
        r == license_expr_ok(s@),
{
    spdx::Expression::parse(s).is_ok()
}

/// The license that is stored for a manifest: the declared expression when
/// one is given and valid, the `non-standard` sentinel when only a license
/// file is given, nothing when neither is given.
pub open spec fn stored_license(license: Option<Seq<char>>, has_license_file: bool) -> Option<
    Seq<char>,
> {
    match license {
        Some(l) => Some(l),
        None => if has_license_file {
            Some("non-standard"@)
        } else {
            None
        },
    }
}

/// The rejection, if any, for the license rule.
pub open spec fn license_rejection(license: Option<Seq<char>>) -> Option<ValidateErrorView> {
    match license {
        Some(l) => if !license_expr_ok(l) {
            Some(ValidateErrorView::InvalidLicense)
        } else {
            None
        },
        None => None,
    }
}

/// Validates the declared license expression, or substitutes the
/// `non-standard` sentinel when only a license file was supplied.
pub fn normalize_license(license: Option<String>, license_file: &Option<String>) -> (r: Result<
    Option<String>,
    ValidateError,
>)
    ensures
        ({
            let lv = crate::registry::opt_view(license);
            match r {
                Ok(stored) => license_rejection(lv) is None && crate::registry::opt_view(stored)
                    == stored_license(lv, license_file is Some),
                Err(e) => Some(e@) == license_rejection(lv),
            }
        }),
{
    match license {
        Some(l) => {
            if parse_license_expr(l.as_str()) {
                Ok(Some(l))
            } else {
                Err(ValidateError::InvalidLicense)
            }
        },
        None => {
            if license_file.is_some() {
                Ok(Some(String::from_str("non-standard")))
            } else {
                Ok(None)
            }
        },
    }
}

/// Whether a string parses as a well-formed URL.
pub uninterp spec fn url_parses(s: Seq<char>) -> bool;

/// Relies on url's `Url::parse`: whether a URL string is accepted depends on
/// the string alone.
#[verifier::external_body]
fn parse_url_ok(s: &str) -> (r: bool)
    ensures
        r == url_parses(s@),
{
    url::Url::parse(s).is_ok()
}

/// Whether a URL field value passes validation: it must carry an explicit
/// `http://` or `https://` prefix and parse as a well-formed URL.
pub open spec fn url_field_ok(u: Seq<char>) -> bool {
    (has_prefix(u, "http://"@) || has_prefix(u, "https://"@)) && url_parses(u)
}

/// The rejection, if any, for one optional URL field.
pub open spec fn url_rejection(u: Option<Seq<char>>, field: Seq<char>) -> Option<
    ValidateErrorView,
> {
    match u {
        None => None,
        Some(u) => if !(has_prefix(u, "http://"@) || has_prefix(u, "https://"@)) {
            Some(ValidateErrorView::UrlScheme { field, url: u })
        } else if !url_parses(u) {
            Some(ValidateErrorView::UrlInvalid { field, url: u })
        } else {
            None
        },
    }
}

/// Validates an optional URL field: the string must begin with `http://` or
/// `https://` (checked directly, since a permissive parser can normalize a
/// relative URL) and must parse as a well-formed URL.
pub fn validate_url(url: Option<&str>, field: &str) -> (r: Result<(), ValidateError>)
    ensures
        ({
            let uv = match url {
                None => None::<Seq<char>>,
                Some(u) => Some(u@),
            };
            match r {
                Ok(()) => url_rejection(uv, field@) is None,
                Err(e) => Some(e@) == url_rejection(uv, field@),
            }
        }),
{
    let u = match url {
        None => { return Ok(()) },
        Some(u) => u,
    };
    if !str_has_prefix(u, "http://") && !str_has_prefix(u, "https://") {
        return Err(
            ValidateError::UrlScheme { field: String::from_str(field), url: String::from_str(u) },
        );
    }
    if !parse_url_ok(u) {
        return Err(
            ValidateError::UrlInvalid { field: String::from_str(field), url: String::from_str(u) },
        );
    }
    Ok(())
}

/// Whether a character may appear anywhere in a keyword: ASCII alphanumeric.
pub open spec fn ascii_alnum(c: char) -> bool {
    (48 <= c as u32 && c as u32 <= 57) || (65 <= c as u32 && c as u32 <= 90) || (97 <= c as u32
        && c as u32 <= 122)
}

fn is_ascii_alnum(c: char) -> (r: bool)
    ensures
        r == ascii_alnum(c),
{
    let u = c as u32;
    (48 <= u && u <= 57) || (65 <= u && u <= 90) || (97 <= u && u <= 122)
}

/// The keyword grammar: non-empty, starting with an ASCII alphanumeric
/// character, continuing with ASCII alphanumerics, `_`, `-` or `+`.
pub open spec fn keyword_valid(k: Seq<char>) -> bool {
    &&& k.len() > 0
    &&& ascii_alnum(k[0])
    &&& forall|i: int|
        1 <= i < k.len() ==> ascii_alnum(#[trigger] k[i]) || k[i] == '_' || k[i] == '-' || k[i]
            == '+'
}

/// Whether a keyword string matches the keyword grammar.
pub fn valid_keyword(k: &str) -> (r: bool)
    ensures
        r == keyword_valid(k@),
{
    let n = k.unicode_len();
    if n == 0 {
        return false;
    }
    if !is_ascii_alnum(k.get_char(0)) {
        return false;
    }
    let mut i: usize = 1;
    while i < n
        invariant
            n == k@.len(),
            1 <= i <= n,
            forall|j: int|
                1 <= j < i ==> ascii_alnum(#[trigger] k@[j]) || k@[j] == '_' || k@[j] == '-'
                    || k@[j] == '+',
        decreases n - i,
    {
        let c = k.get_char(i);
        if !(is_ascii_alnum(c) || c == '_' || c == '-' || c == '+') {
            return false;
        }
        i = i + 1;
    }
    true
}

/// The rejection, if any, for the first keyword that breaks a keyword rule,
/// in list order: over-length first, then the grammar.
pub open spec fn first_keyword_error(ks: Seq<Seq<char>>) -> Option<ValidateErrorView>
    decreases ks.len(),
{
    if ks.len() == 0 {
        None
    } else if ks[0].len() > MAX_KEYWORD_LEN {
        Some(ValidateErrorView::KeywordTooLong { keyword: ks[0] })
    } else if !keyword_valid(ks[0]) {
        Some(ValidateErrorView::InvalidKeyword { keyword: ks[0] })
    } else {
        first_keyword_error(ks.drop_first())
    }
}

/// The rejection, if any, for the keyword rules: at most five keywords, each
/// at most twenty characters and matching the keyword grammar.
pub open spec fn keywords_rejection(ks: Seq<Seq<char>>) -> Option<ValidateErrorView> {
    if ks.len() > MAX_KEYWORDS {
        Some(ValidateErrorView::TooManyKeywords)
    } else {
        first_keyword_error(ks)
    }
}

/// Validates the keyword list against the keyword rules; the first offender
/// is named.
pub fn validate_keywords(keywords: &Vec<String>) -> (r: Result<(), ValidateError>)
    ensures
        ({
            let rej = keywords_rejection(seq_views(keywords@));
            match r {
                Ok(()) => rej is None,
                Err(e) => Some(e@) == rej,
            }
        }),
{
    let ghost ks = seq_views(keywords@);
    if keywords.len() > MAX_KEYWORDS {
        return Err(ValidateError::TooManyKeywords);
    }
    let n = keywords.len();
    let mut i: usize = 0;
    assert(ks.skip(0) =~= ks);
    while i < n
        invariant
            ks == seq_views(keywords@),
            n == keywords@.len(),
            i <= n,
            n <= MAX_KEYWORDS,
            first_keyword_error(ks) == first_keyword_error(ks.skip(i as int)),
        decreases n - i,
    {
        let kw = &keywords[i];
        assert(ks.skip(i as int)[0] == ks[i as int]);
        assert(ks[i as int] == kw@);
        if kw.as_str().unicode_len() > MAX_KEYWORD_LEN {
            assert(first_keyword_error(ks) == Some(
                ValidateErrorView::KeywordTooLong { keyword: ks[i as int] },
            ));
            return Err(ValidateError::KeywordTooLong { keyword: kw.clone() });
        }
        if !valid_keyword(kw.as_str()) {
            assert(first_keyword_error(ks) == Some(
                ValidateErrorView::InvalidKeyword { keyword: ks[i as int] },
            ));
            return Err(ValidateError::InvalidKeyword { keyword: kw.clone() });
        }
        assert(ks.skip(i as int).drop_first() =~= ks.skip(i + 1));
        i = i + 1;
    }
    assert(ks.skip(n as int) =~= Seq::<Seq<char>>::empty());
    Ok(())
}

/// No keyword rejection exists exactly when every keyword obeys both rules.
pub proof fn lemma_first_keyword_error_none(ks: Seq<Seq<char>>)
    ensures
        (first_keyword_error(ks) is None) <==> (forall|i: int|
            0 <= i < ks.len() ==> !keyword_problem(#[trigger] ks[i])),
    decreases ks.len(),
{
    if ks.len() == 0 {
    } else {
        let tail = ks.drop_first();
        lemma_first_keyword_error_none(tail);
        if !keyword_problem(ks[0]) {
            assert(first_keyword_error(ks) == first_keyword_error(tail));
            if forall|i: int| 0 <= i < tail.len() ==> !keyword_problem(#[trigger] tail[i]) {
                assert forall|i: int| 0 <= i < ks.len() implies !keyword_problem(
                    #[trigger] ks[i],
                ) by {
                    if i > 0 {
                        assert(ks[i] == tail[i - 1]);
                        assert(!keyword_problem(tail[i - 1]));
                    }
                }
            }
            if forall|i: int| 0 <= i < ks.len() ==> !keyword_problem(#[trigger] ks[i]) {
                assert forall|i: int| 0 <= i < tail.len() implies !keyword_problem(
                    #[trigger] tail[i],
                ) by {
                    assert(tail[i] == ks[i + 1]);
                }
            }
        }
    }
}

/// Whether one keyword breaks either keyword rule.
pub open spec fn keyword_problem(k: Seq<char>) -> bool {
    k.len() > MAX_KEYWORD_LEN || !keyword_valid(k)
}

/// A keyword list longer than five, or one with an over-long or malformed
/// keyword, is rejected; a category list longer than five is rejected, while
/// the category names themselves never reject here — unknown ones become
/// warnings downstream.
pub proof fn lemma_keyword_and_category_rules(ks: Seq<Seq<char>>, i: int, cs: Seq<Seq<char>>)
    ensures
        ks.len() > MAX_KEYWORDS ==> keywords_rejection(ks) is Some,
        0 <= i < ks.len() && ks[i].len() > MAX_KEYWORD_LEN ==> keywords_rejection(ks) is Some,
        cs.len() > MAX_CATEGORIES <==> categories_rejection(cs) is Some,
{
    if 0 <= i < ks.len() && ks[i].len() > MAX_KEYWORD_LEN {
        lemma_first_keyword_error_none(ks);
        assert(keyword_problem(ks[i]));
    }
}

/// The rejection, if any, for the category-count rule.
pub open spec fn categories_rejection(cs: Seq<Seq<char>>) -> Option<ValidateErrorView> {
    if cs.len() > MAX_CATEGORIES {
        Some(ValidateErrorView::TooManyCategories)
    } else {
        None
    }
}

/// Validates the category list length; category existence is checked against
/// the registry's taxonomy downstream, where unknown names become warnings.
pub fn validate_category_count(categories: &Vec<String>) -> (r: Result<(), ValidateError>)
    ensures
        match r {
            Ok(()) => categories_rejection(seq_views(categories@)) is None,
            Err(e) => Some(e@) == categories_rejection(seq_views(categories@)),
        },
{
    if categories.len() > MAX_CATEGORIES {
        Err(ValidateError::TooManyCategories)
    } else {
        Ok(())
    }
}

impl ValidateErrorView {
    /// The stable human-readable message for the rejection.
    pub open spec fn spec_message(self) -> Seq<char> {
        match self {
            ValidateErrorView::MissingMetadata { description, license } => spec_missing_metadata_message(
                missing_field_names(description, license),
            ),
            ValidateErrorView::InvalidLicense => "unknown or invalid license expression; see http://opensource.org/licenses for options, and http://spdx.org/licenses/ for their identifiers"@,
            ValidateErrorView::UrlScheme { field, url } => "URL for field `"@ + field
                + "` must begin with http:// or https:// (url: "@ + url + ")"@,
            ValidateErrorView::UrlInvalid { field, url } => "`"@ + field
                + "` is not a valid url: `"@ + url + "`"@,
            ValidateErrorView::TooManyKeywords => "expected at most 5 keywords per crate"@,
            ValidateErrorView::KeywordTooLong { keyword } => "\""@ + keyword
                + "\" is an invalid keyword (keywords must have less than 20 characters)"@,
            ValidateErrorView::InvalidKeyword { keyword } => "\""@ + keyword
                + "\" is an invalid keyword"@,
            ValidateErrorView::TooManyCategories => "expected at most 5 categories per crate"@,
        }
    }
}

impl ValidateError {
    pub fn message(&self) -> (r: String)
        ensures
            r@ == self@.spec_message(),
    {
        match self {
            ValidateError::MissingMetadata { description, license } => {
                let mut fields: Vec<&str> = Vec::new();
                if *description {
                    fields.push("description");
                }
                if *license {
                    fields.push("license");
                }
                assert(fields@.map_values(|x: &str| x@) =~= missing_field_names(
                    *description,
                    *license,
                ));
                missing_metadata_error_message(fields.as_slice())
            },
            ValidateError::InvalidLicense => String::from_str(
                "unknown or invalid license expression; see http://opensource.org/licenses for options, and http://spdx.org/licenses/ for their identifiers",
            ),
            ValidateError::UrlScheme { field, url } => {
                let mut s = String::from_str("URL for field `");
                s.append(field.as_str());
                s.append("` must begin with http:// or https:// (url: ");
                s.append(url.as_str());
                s.append(")");
                s
            },
            ValidateError::UrlInvalid { field, url } => {
                let mut s = String::from_str("`");
                s.append(field.as_str());
                s.append("` is not a valid url: `");
                s.append(url.as_str());
                s.append("`");
                s
            },
            ValidateError::TooManyKeywords => String::from_str(
                "expected at most 5 keywords per crate",
            ),
            ValidateError::KeywordTooLong { keyword } => {
                let mut s = String::from_str("\"");
                s.append(keyword.as_str());
                s.append("\" is an invalid keyword (keywords must have less than 20 characters)");
                s
            },
            ValidateError::InvalidKeyword { keyword } => {
                let mut s = String::from_str("\"");
                s.append(keyword.as_str());
                s.append("\" is an invalid keyword");
                s
            },
            ValidateError::TooManyCategories => String::from_str(
                "expected at most 5 categories per crate",
            ),
        }
    }
}

} // verus!
