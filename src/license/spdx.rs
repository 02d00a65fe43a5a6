//! Headers for SPDX licenses, with the license's template tokens filled in.
//!
//! Some licenses are templates: tokens such as `<year>` are meant to be replaced by a value of
//! the user's. [`LicenseTokens`] names the tokens of a license and the values that replace
//! them; [`NoTokens`] serves licenses that have none.

use crate::checker::SingleLineChecker;
use crate::header::Header;
use crate::text::{chars_of, push_char, replace_first, replace_first_chars, string_of};
use vstd::prelude::*;

verus! {

/// What the SPDX license catalog holds for the license `id`: its full text and, when it has
/// one, its standard header.
pub uninterp spec fn spdx_catalog_texts(id: Seq<char>) -> Option<(Seq<char>, Option<Seq<char>>)>;

/// The texts of a license, as the catalog holds them.
#[derive(Debug)]
pub struct LicenseText {
    /// The full license text.
    pub text: String,
    /// The license's standard header, when it has one.
    pub header: Option<String>,
}

impl LicenseText {
    /// The text and header as sequences of characters.
    pub open spec fn spec_texts(&self) -> (Seq<char>, Option<Seq<char>>) {
        (
            self.text@,
            match self.header {
                Some(h) => Some(h@),
                None => None,
            },
        )
    }

    /// The text a header is built from: the standard header when there is one, else the full
    /// text.
    pub open spec fn base_spec(&self) -> Seq<char> {
        match self.header {
            Some(h) => h@,
            None => self.text@,
        }
    }

    /// The catalog's texts for the SPDX license `id`, when the catalog knows it.
    pub fn from_spdx_id(id: &str) -> (r: Option<LicenseText>)
        ensures
            r is None ==> spdx_catalog_texts(id@) is None,
            r matches Some(l) ==> spdx_catalog_texts(id@) == Some(l.spec_texts()),
    {
        catalog_lookup(id)
    }

    /// The text a header is built from: the standard header when there is one, else the full
    /// text.
    pub fn base(&self) -> (r: &str)
        ensures
            r@ == self.base_spec(),
    {
        match &self.header {
            Some(h) => h.as_str(),
            None => self.text.as_str(),
        }
    }
}

/// Relies on the `license` crate: its lookup of an SPDX id (`FromStr for &dyn License`), and
/// the `text` and `header` of the license found, copied out as they are.
#[verifier::external_body]
fn catalog_lookup(id: &str) -> (r: Option<LicenseText>)
    ensures
        r is None ==> spdx_catalog_texts(id@) is None,
        r matches Some(l) ==> spdx_catalog_texts(id@) == Some(l.spec_texts()),
{
    let found: Option<&'static dyn ::license::License> = id.parse().ok();
    found.map(|l| LicenseText { text: l.text().to_string(), header: l.header().map(|h| h.to_string()) })
}

/// The decimal digit `d`.
pub open spec fn digit_char(d: nat) -> char {
    ((d + 48) as u8) as char
}

/// The decimal numeral of `n`, without leading zeros.
pub open spec fn decimal(n: nat) -> Seq<char>
    decreases n,
{
    if n < 10 {
        seq![digit_char(n)]
    } else {
        decimal(n / 10).push(digit_char(n % 10))
    }
}

/// Appends the decimal numeral of `n` to `out`.
fn push_decimal(out: &mut String, n: u32)
    ensures
        final(out)@ == old(out)@ + decimal(n as nat),
    decreases n,
{
    if n >= 10 {
        push_decimal(out, n / 10);
    }
    let d: u8 = (n % 10) as u8;
    push_char(out, (d + 48) as char);
}

/// The decimal numeral of `n`.
pub fn decimal_string(n: u32) -> (r: String)
    ensures
        r@ == decimal(n as nat),
{
    let mut out = String::new();
    push_decimal(&mut out, n);
    out
}

/// `text` with each `(token, value)` pair applied in turn: the first occurrence of the token
/// in the text so far is replaced by the value.
pub open spec fn replace_tokens(text: Seq<char>, pairs: Seq<(Seq<char>, Seq<char>)>) -> Seq<char>
    decreases pairs.len(),
{
    if pairs.len() == 0 {
        text
    } else {
        replace_tokens(replace_first(text, pairs[0].0, pairs[0].1), pairs.drop_first())
    }
}

/// The `(token, value)` pairs as sequences of characters.
pub open spec fn pair_views(pairs: Seq<(&'static str, String)>) -> Seq<(Seq<char>, Seq<char>)> {
    pairs.map_values(|p: (&'static str, String)| (p.0@, p.1@))
}

/// Tokens in a license text to be replaced, such as `<year>`.
pub trait LicenseTokens {
    /// The values that replace the tokens.
    type TokenReplacementValues;

    /// The `(token, value)` pairs for `replacements`, as sequences of characters.
    spec fn replacement_pairs_spec(replacements: Self::TokenReplacementValues) -> Seq<
        (Seq<char>, Seq<char>),
    >;

    /// The `(token to search for, replacement value)` pairs, applied in this order.
    fn replacement_pairs(replacements: Self::TokenReplacementValues) -> (r: Vec<
        (&'static str, String),
    >)
        ensures
            pair_views(r@) == Self::replacement_pairs_spec(replacements),
    ;
}

/// For licenses with no tokens to replace.
pub struct NoTokens;

impl LicenseTokens for NoTokens {
    type TokenReplacementValues = ();

    open spec fn replacement_pairs_spec(replacements: ()) -> Seq<(Seq<char>, Seq<char>)> {
        seq![]
    }

    fn replacement_pairs(replacements: ()) -> (r: Vec<(&'static str, String)>) {
        let r: Vec<(&'static str, String)> = Vec::new();
        assert(pair_views(r@) == Seq::<(Seq<char>, Seq<char>)>::empty());
        r
    }
}

/// Replacement values for licenses that use a year and a copyright owner's name.
pub struct YearCopyrightOwnerValue {
    /// The year of the copyright.
    pub year: u32,
    /// The holder of the copyright.
    pub copyright_owner: String,
}

impl YearCopyrightOwnerValue {
    /// Values with the year `year` and the holder `copyright_owner`.
    pub fn new(year: u32, copyright_owner: String) -> (r: Self)
        ensures
            r.year == year,
            r.copyright_owner@ == copyright_owner@,
    {
        YearCopyrightOwnerValue { year, copyright_owner }
    }
}

/// The two pairs `(year_token, year)` and `(owner_token, owner)`.
pub open spec fn year_owner_pairs(
    year_token: Seq<char>,
    owner_token: Seq<char>,
    v: YearCopyrightOwnerValue,
) -> Seq<(Seq<char>, Seq<char>)> {
    seq![(year_token, decimal(v.year as nat)), (owner_token, v.copyright_owner@)]
}

/// The pairs for a year token and an owner token.
fn year_owner_vec(year_token: &'static str, owner_token: &'static str, v: YearCopyrightOwnerValue) -> (r:
    Vec<(&'static str, String)>)
    ensures
        pair_views(r@) == year_owner_pairs(year_token@, owner_token@, v),
{
    let mut r: Vec<(&'static str, String)> = Vec::new();
    r.push((year_token, decimal_string(v.year)));
    r.push((owner_token, v.copyright_owner));
    assert(pair_views(r@) == year_owner_pairs(year_token@, owner_token@, v));
    r
}

/// Tokens of the Apache 2.0 license.
pub struct Apache2Tokens;

impl LicenseTokens for Apache2Tokens {
    type TokenReplacementValues = YearCopyrightOwnerValue;

    open spec fn replacement_pairs_spec(replacements: YearCopyrightOwnerValue) -> Seq<
        (Seq<char>, Seq<char>),
    > {
        year_owner_pairs("[yyyy]"@, "[name of copyright owner]"@, replacements)
    }

    fn replacement_pairs(replacements: YearCopyrightOwnerValue) -> (r: Vec<(&'static str, String)>) {
        year_owner_vec("[yyyy]", "[name of copyright owner]", replacements)
    }
}

/// Tokens of the MIT license.
pub struct MitTokens;

impl LicenseTokens for MitTokens {
    type TokenReplacementValues = YearCopyrightOwnerValue;

    open spec fn replacement_pairs_spec(replacements: YearCopyrightOwnerValue) -> Seq<
        (Seq<char>, Seq<char>),
    > {
        year_owner_pairs("<year>"@, "<copyright holders>"@, replacements)
    }

    fn replacement_pairs(replacements: YearCopyrightOwnerValue) -> (r: Vec<(&'static str, String)>) {
        year_owner_vec("<year>", "<copyright holders>", replacements)
    }
}

/// Tokens of the BSD 3-clause license.
pub struct Bsd3ClauseTokens {}

impl LicenseTokens for Bsd3ClauseTokens {
    type TokenReplacementValues = YearCopyrightOwnerValue;

    open spec fn replacement_pairs_spec(replacements: YearCopyrightOwnerValue) -> Seq<
        (Seq<char>, Seq<char>),
    > {
        year_owner_pairs("<year>"@, "<owner>"@, replacements)
    }

    fn replacement_pairs(replacements: YearCopyrightOwnerValue) -> (r: Vec<(&'static str, String)>) {
        year_owner_vec("<year>", "<owner>", replacements)
    }
}

/// Tokens of the GPL 3.0 license.
pub struct Gpl3Tokens {}

impl LicenseTokens for Gpl3Tokens {
    type TokenReplacementValues = YearCopyrightOwnerValue;

    open spec fn replacement_pairs_spec(replacements: YearCopyrightOwnerValue) -> Seq<
        (Seq<char>, Seq<char>),
    > {
        year_owner_pairs("<year>"@, "<name of author>"@, replacements)
    }

    fn replacement_pairs(replacements: YearCopyrightOwnerValue) -> (r: Vec<(&'static str, String)>) {
        year_owner_vec("<year>", "<name of author>", replacements)
    }
}

/// An SPDX license, and how to detect it, from which a [`Header`] can be built.
///
/// `L` names the license's tokens to replace.
pub struct SpdxLicense<L: LicenseTokens> {
    /// The license's texts.
    license_text: LicenseText,
    /// The text whose presence on a line shows the license is there.
    search_pattern: String,
    /// How many lines to look through for `search_pattern`.
    lines_to_search: usize,
    /// The token set.
    marker: core::marker::PhantomData<L>,
}

impl<L: LicenseTokens> SpdxLicense<L> {
    /// The license's texts.
    pub closed spec fn license_text_spec(&self) -> LicenseText {
        self.license_text
    }

    /// The text looked for to detect the license.
    pub closed spec fn search_pattern_spec(&self) -> Seq<char> {
        self.search_pattern@
    }

    /// How many lines are looked through.
    pub closed spec fn lines_to_search_spec(&self) -> nat {
        self.lines_to_search as nat
    }

    /// The license with texts `license_text`, detected by `search_pattern` on one of the first
    /// `lines_to_search` lines of a file.
    pub fn new(license_text: LicenseText, search_pattern: String, lines_to_search: usize) -> (r:
        Self)
        ensures
            r.license_text_spec() == license_text,
            r.search_pattern_spec() == search_pattern@,
            r.lines_to_search_spec() == lines_to_search,
    {
        SpdxLicense {
            license_text,
            search_pattern,
            lines_to_search,
            marker: core::marker::PhantomData,
        }
    }

    /// A header for this license with the tokens replaced by `replacement_values`.
    ///
    /// The license's standard header is used when it has one, else its full text. Each token's
    /// first occurrence is replaced, in the order [`LicenseTokens::replacement_pairs`] gives.
    pub fn build_header(&self, replacement_values: L::TokenReplacementValues) -> (r: Header<
        SingleLineChecker,
    >)
        ensures
            r.checker_spec().pattern_spec() == self.search_pattern_spec(),
            r.checker_spec().max_lines_spec() == self.lines_to_search_spec(),
            r.text_spec() == replace_tokens(
                self.license_text_spec().base_spec(),
                L::replacement_pairs_spec(replacement_values),
            ),
    {
        let checker = SingleLineChecker::new(self.search_pattern.clone(), self.lines_to_search);
        let pairs = L::replacement_pairs(replacement_values);
        let ghost spec_pairs = pair_views(pairs@);
        let mut text = chars_of(self.license_text.base());
        let mut i: usize = 0;
        assert(spec_pairs.skip(0) == spec_pairs);
        while i < pairs.len()
            invariant
                i <= pairs.len(),
                spec_pairs == pair_views(pairs@),
                replace_tokens(self.license_text.base_spec(), spec_pairs) == replace_tokens(
                    text@,
                    spec_pairs.skip(i as int),
                ),
            decreases pairs.len() - i,
        {
            let token = chars_of(pairs[i].0);
            let value = chars_of(pairs[i].1.as_str());
            assert(spec_pairs.skip(i as int).drop_first() == spec_pairs.skip(i + 1));
            text = replace_first_chars(&text, &token, &value);
            i = i + 1;
        }
        Header::new(checker, string_of(&text))
    }
}

/// The catalog license `id`, detected by `search_pattern` on one of the first ten lines.
fn catalog_license<L: LicenseTokens>(id: &str, search_pattern: &str) -> (r: Option<
    SpdxLicense<L>,
>)
    ensures
        r is None ==> spdx_catalog_texts(id@) is None,
        r matches Some(l) ==> spdx_catalog_texts(id@) == Some(l.license_text_spec().spec_texts())
            && l.search_pattern_spec() == search_pattern@ && l.lines_to_search_spec() == 10,
{
    match LicenseText::from_spdx_id(id) {
        None => None,
        Some(t) => Some(SpdxLicense::new(t, search_pattern.to_owned(), 10)),
    }
}

/// The Apache 2.0 license.
pub fn apache_2_0() -> (r: Option<SpdxLicense<Apache2Tokens>>)
    ensures
        r is None ==> spdx_catalog_texts("Apache-2.0"@) is None,
        r matches Some(l) ==> spdx_catalog_texts("Apache-2.0"@) == Some(
            l.license_text_spec().spec_texts(),
        ) && l.search_pattern_spec() == "Apache License, Version 2.0"@
            && l.lines_to_search_spec() == 10,
{
    catalog_license("Apache-2.0", "Apache License, Version 2.0")
}

/// The MIT license.
pub fn mit() -> (r: Option<SpdxLicense<MitTokens>>)
    ensures
        r is None ==> spdx_catalog_texts("MIT"@) is None,
        r matches Some(l) ==> spdx_catalog_texts("MIT"@) == Some(l.license_text_spec().spec_texts())
            && l.search_pattern_spec() == "MIT License"@ && l.lines_to_search_spec() == 10,
{
    catalog_license("MIT", "MIT License")
}

/// The BSD 3-clause license.
pub fn bsd_3() -> (r: Option<SpdxLicense<Bsd3ClauseTokens>>)
    ensures
        r is None ==> spdx_catalog_texts("BSD-3-Clause"@) is None,
        r matches Some(l) ==> spdx_catalog_texts("BSD-3-Clause"@) == Some(
            l.license_text_spec().spec_texts(),
        ) && l.search_pattern_spec()
            == "Redistribution and use in source and binary forms, with or without modification, are permitted provided that the following conditions are met:"@
            && l.lines_to_search_spec() == 10,
{
    catalog_license(
        "BSD-3-Clause",
        "Redistribution and use in source and binary forms, with or without modification, are permitted provided that the following conditions are met:",
    )
}

/// The GPL 3.0 license.
pub fn gpl_3_0_only() -> (r: Option<SpdxLicense<Gpl3Tokens>>)
    ensures
        r is None ==> spdx_catalog_texts("GPL-3.0-only"@) is None,
        r matches Some(l) ==> spdx_catalog_texts("GPL-3.0-only"@) == Some(
            l.license_text_spec().spec_texts(),
        ) && l.search_pattern_spec() == "GNU General Public License"@
            && l.lines_to_search_spec() == 10,
{
    catalog_license("GPL-3.0-only", "GNU General Public License")
}

/// The EPL 2.0 license.
pub fn epl_2_0() -> (r: Option<SpdxLicense<NoTokens>>)
    ensures
        r is None ==> spdx_catalog_texts("EPL-2.0"@) is None,
        r matches Some(l) ==> spdx_catalog_texts("EPL-2.0"@) == Some(
            l.license_text_spec().spec_texts(),
        ) && l.search_pattern_spec() == "Eclipse Public License - v 2.0"@
            && l.lines_to_search_spec() == 10,
{
    catalog_license("EPL-2.0", "Eclipse Public License - v 2.0")
}

/// The MPL 2.0 license.
pub fn mpl_2_0() -> (r: Option<SpdxLicense<NoTokens>>)
    ensures
        r is None ==> spdx_catalog_texts("MPL-2.0"@) is None,
        r matches Some(l) ==> spdx_catalog_texts("MPL-2.0"@) == Some(
            l.license_text_spec().spec_texts(),
        ) && l.search_pattern_spec() == "Mozilla Public License, v. 2.0"@
            && l.lines_to_search_spec() == 10,
{
    catalog_license("MPL-2.0", "Mozilla Public License, v. 2.0")
}

} // verus!
