//! Forms and addresses in pages of Canvas and the video platform.

use vstd::prelude::*;

use crate::json::same_text;
use crate::latex::to_latex::{group_text, text_of_group};
use crate::outside::{first_match, groups_view, regex_captures};
use crate::text::{from_chars, opt_view, starts_with, starts_with_of, to_chars};

verus! {

// ---------------------------------------------------------------------------
// Forms
// ---------------------------------------------------------------------------

/// A form: its action and its inputs, each with its name and its value.
pub type Form = (Option<String>, Vec<(Option<String>, Option<String>)>);

/// A form as plain values.
pub type FormView = (Option<Seq<char>>, Seq<(Option<Seq<char>>, Option<Seq<char>>)>);

/// The inputs of a form as plain values.
pub open spec fn inputs_view(inputs: Seq<(Option<String>, Option<String>)>) -> Seq<
    (Option<Seq<char>>, Option<Seq<char>>),
> {
    inputs.map_values(|i: (Option<String>, Option<String>)| (opt_view(i.0), opt_view(i.1)))
}

/// Forms as plain values.
pub open spec fn forms_view(forms: Seq<Form>) -> Seq<FormView> {
    forms.map_values(|f: Form| (opt_view(f.0), inputs_view(f.1@)))
}

/// The forms of a page.
pub uninterp spec fn forms_of(html: Seq<char>) -> Seq<
    (Option<Seq<char>>, Seq<(Option<Seq<char>>, Option<Seq<char>>)>),
>;

/// `scraper::Html::parse_document` and `select`: the forms of a page in order,
/// each with its `action`, and with the `name` and the `value` of each of its
/// inputs. What they are is left to the crate; the contract says that the page
/// determines them.
#[verifier::external_body]
pub(crate) fn parse_forms(html: &str) -> (r: Vec<Form>)
    ensures
        forms_view(r@) == forms_of(html@),
{
    let form = scraper::Selector::parse("form").unwrap();
    let input = scraper::Selector::parse("input").unwrap();
    let attr = |e: scraper::ElementRef, name: &str| e.value().attr(name).map(|v| v.to_string());
    let fields = |e| (attr(e, "name"), attr(e, "value"));
    scraper::Html::parse_document(html)
        .select(&form)
        .map(|f| (attr(f, "action"), f.select(&input).map(fields).collect()))
        .collect()
}

/// Names and values as plain values.
pub open spec fn pairs_view(pairs: Seq<(String, String)>) -> Seq<(Seq<char>, Seq<char>)> {
    pairs.map_values(|p: (String, String)| (p.0@, p.1@))
}

/// The inputs that have a name, with their values; an input without a value has an
/// empty one, or is left out.
pub open spec fn named_inputs(
    inputs: Seq<(Option<Seq<char>>, Option<Seq<char>>)>,
    with_empty: bool,
) -> Seq<(Seq<char>, Seq<char>)>
    decreases inputs.len(),
{
    if inputs.len() == 0 {
        Seq::empty()
    } else {
        let before = named_inputs(inputs.drop_last(), with_empty);
        match inputs.last() {
            (Some(name), Some(value)) => before.push((name, value)),
            (Some(name), None) => if with_empty {
                before.push((name, ""@))
            } else {
                before
            },
            (None, _) => before,
        }
    }
}

/// The inputs that have a name, with their values.
fn collect_inputs(inputs: &Vec<(Option<String>, Option<String>)>, with_empty: bool) -> (r: Vec<
    (String, String),
>)
    ensures
        pairs_view(r@) == named_inputs(inputs_view(inputs@), with_empty),
{
    let ghost iv = inputs_view(inputs@);
    let mut out: Vec<(String, String)> = Vec::new();
    let mut i: usize = 0;
    assert(iv.take(0) =~= Seq::empty());
    assert(pairs_view(out@) =~= Seq::empty());
    while i < inputs.len()
        invariant
            i <= inputs@.len(),
            iv == inputs_view(inputs@),
            pairs_view(out@) == named_inputs(iv.take(i as int), with_empty),
        decreases inputs@.len() - i,
    {
        proof {
            assert(iv.take(i + 1).drop_last() =~= iv.take(i as int));
            assert(iv.take(i + 1).last() == (
                opt_view(inputs@[i as int].0),
                opt_view(inputs@[i as int].1),
            ));
        }
        let ghost before = out@;
        if let Some(name) = &inputs[i].0 {
            match &inputs[i].1 {
                Some(value) => {
                    out.push((name.clone(), value.clone()));
                    assert(pairs_view(out@) =~= pairs_view(before).push((name@, value@)));
                },
                None => {
                    if with_empty {
                        out.push((name.clone(), "".to_owned()));
                        assert(pairs_view(out@) =~= pairs_view(before).push((name@, ""@)));
                    }
                },
            }
        }
        i += 1;
    }
    assert(iv.take(i as int) =~= iv);
    out
}

/// The first form with an action.
pub open spec fn form_for(forms: Seq<FormView>, action: Seq<char>) -> Option<FormView>
    decreases forms.len(),
{
    if forms.len() == 0 {
        None
    } else if forms[0].0 == Some(action) {
        Some(forms[0])
    } else {
        form_for(forms.skip(1), action)
    }
}

/// The inputs to submit with the form that has exactly this action; or an error.
pub open spec fn action_inputs(forms: Seq<FormView>, action: Seq<char>) -> Result<
    Seq<(Seq<char>, Seq<char>)>,
    Seq<char>,
> {
    match form_for(forms, action) {
        Some(f) => Ok(named_inputs(f.1, false)),
        None => Err("No form found with action "@ + action),
    }
}

/// Names and values, or an error, as plain values.
pub open spec fn inputs_result(r: Result<Vec<(String, String)>, String>) -> Result<
    Seq<(Seq<char>, Seq<char>)>,
    Seq<char>,
> {
    match r {
        Ok(pairs) => Ok(pairs_view(pairs@)),
        Err(e) => Err(e@),
    }
}

/// The inputs to submit with the form that has exactly this action.
pub fn inputs_for_action(forms: &Vec<Form>, action_url: &str) -> (r: Result<
    Vec<(String, String)>,
    String,
>)
    ensures
        inputs_result(r) == action_inputs(forms_view(forms@), action_url@),
{
    let ghost fv = forms_view(forms@);
    let mut i: usize = 0;
    assert(fv.skip(0) =~= fv);
    while i < forms.len()
        invariant
            i <= forms@.len(),
            fv == forms_view(forms@),
            form_for(fv, action_url@) == form_for(fv.skip(i as int), action_url@),
        decreases forms@.len() - i,
    {
        assert(fv.skip(i as int)[0] == (opt_view(forms@[i as int].0), inputs_view(
            forms@[i as int].1@,
        )));
        assert(fv.skip(i as int).skip(1) =~= fv.skip(i + 1));
        let same = match &forms[i].0 {
            Some(a) => same_text(a.as_str(), action_url),
            None => false,
        };
        if same {
            return Ok(collect_inputs(&forms[i].1, false));
        }
        i += 1;
    }
    let mut e = "No form found with action ".to_owned();
    e.push_str(action_url);
    Err(e)
}

/// Extract input data from the form whose action exactly matches `action_url`.
///
/// Forms are selected this way instead of taking the first form on the page. That
/// avoids accidentally submitting login/error-page forms.
pub fn extract_form_inputs_for_action(html: &str, action_url: &str) -> (r: Result<
    Vec<(String, String)>,
    String,
>)
    ensures
        inputs_result(r) == action_inputs(forms_of(html@), action_url@),
{
    inputs_for_action(&parse_forms(html), action_url)
}

/// The action and the inputs of the first form; or an error.
pub open spec fn first_form(forms: Seq<FormView>) -> Result<
    (Seq<char>, Seq<(Seq<char>, Seq<char>)>),
    Seq<char>,
> {
    if forms.len() == 0 {
        Err("No form element found in HTML"@)
    } else {
        match forms[0].0 {
            Some(action) => Ok((action, named_inputs(forms[0].1, true))),
            None => Err("Form element has no action attribute"@),
        }
    }
}

/// The action and the inputs of the first form.
pub fn first_form_of(forms: &Vec<Form>) -> (r: Result<(String, Vec<(String, String)>), String>)
    ensures
        match r {
            Ok((action, inputs)) => first_form(forms_view(forms@)) == Ok::<
                (Seq<char>, Seq<(Seq<char>, Seq<char>)>),
                Seq<char>,
            >((action@, pairs_view(inputs@))),
            Err(e) => first_form(forms_view(forms@)) == Err::<
                (Seq<char>, Seq<(Seq<char>, Seq<char>)>),
                Seq<char>,
            >(e@),
        },
{
    assert(forms_view(forms@).len() == forms@.len());
    if forms.len() == 0 {
        return Err("No form element found in HTML".to_owned());
    }
    assert(forms_view(forms@)[0] == (opt_view(forms@[0].0), inputs_view(forms@[0].1@)));
    match &forms[0].0 {
        Some(action) => Ok((action.clone(), collect_inputs(&forms[0].1, true))),
        None => Err("Form element has no action attribute".to_owned()),
    }
}

/// Extract form action URL and input name/value pairs from HTML.
///
/// Only `<input>` elements with a `name` attribute are kept.
pub fn extract_form_action_and_inputs(html: &str) -> (r: Result<
    (String, Vec<(String, String)>),
    String,
>)
    ensures
        match r {
            Ok((action, inputs)) => first_form(forms_of(html@)) == Ok::<
                (Seq<char>, Seq<(Seq<char>, Seq<char>)>),
                Seq<char>,
            >((action@, pairs_view(inputs@))),
            Err(e) => first_form(forms_of(html@)) == Err::<
                (Seq<char>, Seq<(Seq<char>, Seq<char>)>),
                Seq<char>,
            >(e@),
        },
{
    first_form_of(&parse_forms(html))
}

/// No other form is submitted in place of the one that is asked for: the inputs
/// come from a form with exactly that action.
pub proof fn law_only_the_form_is_submitted(forms: Seq<FormView>, action: Seq<char>)
    ensures
        action_inputs(forms, action) is Ok <==> exists|i: int|
            0 <= i < forms.len() && (#[trigger] forms[i]).0 == Some(action),
        form_for(forms, action) matches Some(f) ==> f.0 == Some(action),
    decreases forms.len(),
{
    if forms.len() > 0 && forms[0].0 != Some(action) {
        let rest = forms.skip(1);
        law_only_the_form_is_submitted(rest, action);
        if exists|i: int| 0 <= i < rest.len() && (#[trigger] rest[i]).0 == Some(action) {
            let i = choose|i: int| 0 <= i < rest.len() && (#[trigger] rest[i]).0 == Some(action);
            assert(forms[i + 1].0 == Some(action));
        }
        if exists|i: int| 0 <= i < forms.len() && (#[trigger] forms[i]).0 == Some(action) {
            let i = choose|i: int| 0 <= i < forms.len() && (#[trigger] forms[i]).0 == Some(action);
            assert(rest[i - 1].0 == Some(action));
        }
    }
}

// ---------------------------------------------------------------------------
// Addresses
// ---------------------------------------------------------------------------

/// The query of an address, by names and values; nothing where it is no address.
pub uninterp spec fn query_of(address: Seq<char>) -> Option<Seq<(Seq<char>, Seq<char>)>>;

/// `url::Url::parse` and `query_pairs`: the names and values of the query of an
/// address, in order; nothing where it is no address. What they are is left to the
/// crate; the contract says that the address determines them.
#[verifier::external_body]
pub(crate) fn parse_query(address: &str) -> (r: Option<Vec<(String, String)>>)
    ensures
        match r {
            Some(pairs) => query_of(address@) == Some(pairs_view(pairs@)),
            None => query_of(address@) is None,
        },
{
    let url = url::Url::parse(address).ok()?;
    Some(url.query_pairs().map(|(k, v)| (k.into_owned(), v.into_owned())).collect())
}

/// The scheme and the host of an address; nothing where it is no address.
pub uninterp spec fn origin_of(address: Seq<char>) -> Option<(Seq<char>, Option<Seq<char>>)>;

/// `url::Url::parse`, `scheme` and `host_str`: the scheme of an address, and its
/// host where it has one; nothing where it is no address. What they are is left to
/// the crate; the contract says that the address determines them.
#[verifier::external_body]
pub(crate) fn parse_origin(address: &str) -> (r: Option<(String, Option<String>)>)
    ensures
        match r {
            Some((scheme, host)) => origin_of(address@) == Some((scheme@, opt_view(host))),
            None => origin_of(address@) is None,
        },
{
    let url = url::Url::parse(address).ok()?;
    Some((url.scheme().to_string(), url.host_str().map(|h| h.to_string())))
}

/// A digit of the base sixteen, in upper case.
pub open spec fn hex_digit(n: int) -> char {
    if n < 10 {
        ('0' as int + n) as char
    } else {
        ('A' as int + (n - 10)) as char
    }
}

/// Whether a byte stands for itself in a form: letters and digits of ASCII, `*`,
/// `-`, `.` and `_`.
pub open spec fn form_keeps(b: u8) -> bool {
    (0x30 <= b <= 0x39) || (0x41 <= b <= 0x5a) || (0x61 <= b <= 0x7a) || b == 0x2a || b == 0x2d || b
        == 0x2e || b == 0x5f
}

/// A byte in a form: as it is, a plus sign for a blank, and else a percent sign and
/// two digits.
pub open spec fn form_byte(b: u8) -> Seq<char> {
    if form_keeps(b) {
        seq![b as char]
    } else if b == 0x20 {
        seq!['+']
    } else {
        seq!['%', hex_digit(b as int / 16), hex_digit(b as int % 16)]
    }
}

/// Bytes in a form.
pub open spec fn form_bytes(bytes: Seq<u8>) -> Seq<char>
    decreases bytes.len(),
{
    if bytes.len() == 0 {
        Seq::empty()
    } else {
        form_bytes(bytes.drop_last()) + form_byte(bytes.last())
    }
}

/// The form encoding of a text: that of its bytes in UTF-8.
pub open spec fn form_encoded(text: Seq<char>) -> Seq<char> {
    form_bytes(vstd::utf8::encode_utf8(text))
}

/// `url::form_urlencoded::byte_serialize`: the bytes of a text as they stand in
/// `application/x-www-form-urlencoded`. The contract says that letters, digits and
/// `*-._` stay, a blank becomes a plus sign, and every other byte a percent sign with
/// its two digits of the base sixteen.
#[verifier::external_body]
pub(crate) fn form_encode(text: &str) -> (r: String)
    ensures
        r@ == form_encoded(text@),
{
    url::form_urlencoded::byte_serialize(text.as_bytes()).collect()
}

/// A token behind an equals sign.
pub const TOKEN_EQUALS: &'static str = r"tokenId=([^&\s/?#]+)";

/// A token as a part of a path.
pub const TOKEN_PATH: &'static str = r"tokenId/([^/\s?#]+)";

/// The first value of the query with the name `tokenId`.
pub open spec fn token_in(query: Seq<(Seq<char>, Seq<char>)>) -> Option<Seq<char>>
    decreases query.len(),
{
    if query.len() == 0 {
        None
    } else if query[0].0 == "tokenId"@ {
        Some(query[0].1)
    } else {
        token_in(query.skip(1))
    }
}

/// The token of an address, by its query and by what the two patterns match in it.
pub open spec fn token_of(
    query: Option<Seq<(Seq<char>, Seq<char>)>>,
    equals: Option<Seq<Option<Seq<char>>>>,
    path: Option<Seq<Option<Seq<char>>>>,
) -> Option<Seq<char>> {
    let by_query = match query {
        Some(q) => token_in(q),
        None => None,
    };
    match (by_query, equals, path) {
        (Some(t), _, _) => Some(t),
        (None, Some(groups), _) => Some(group_text(groups, 1)),
        (None, None, Some(groups)) => Some(group_text(groups, 1)),
        (None, None, None) => None,
    }
}

/// The first value of the query with the name `tokenId`.
fn find_token(query: &Vec<(String, String)>) -> (r: Option<String>)
    ensures
        opt_view(r) == token_in(pairs_view(query@)),
{
    let ghost qv = pairs_view(query@);
    let mut i: usize = 0;
    assert(qv.skip(0) =~= qv);
    while i < query.len()
        invariant
            i <= query@.len(),
            qv == pairs_view(query@),
            token_in(qv) == token_in(qv.skip(i as int)),
        decreases query@.len() - i,
    {
        assert(qv.skip(i as int)[0] == (query@[i as int].0@, query@[i as int].1@));
        assert(qv.skip(i as int).skip(1) =~= qv.skip(i + 1));
        if same_text(query[i].0.as_str(), "tokenId") {
            return Some(query[i].1.clone());
        }
        i += 1;
    }
    None
}

/// The groups of a match, where there is one.
pub open spec fn opt_groups(groups: Option<Vec<Option<String>>>) -> Option<Seq<Option<Seq<char>>>> {
    match groups {
        Some(g) => Some(groups_view(g@)),
        None => None,
    }
}

/// The token of an address, by its query and by what the two patterns match in it.
pub fn choose_token(
    query: Option<Vec<(String, String)>>,
    equals: Option<Vec<Option<String>>>,
    path: Option<Vec<Option<String>>>,
) -> (r: Option<String>)
    ensures
        opt_view(r) == token_of(
            match query {
                Some(q) => Some(pairs_view(q@)),
                None => None,
            },
            opt_groups(equals),
            opt_groups(path),
        ),
{
    if let Some(q) = query {
        if let Some(t) = find_token(&q) {
            return Some(t);
        }
    }
    if let Some(groups) = equals {
        return Some(text_of_group(&groups, 1));
    }
    if let Some(groups) = path {
        return Some(text_of_group(&groups, 1));
    }
    None
}

/// Extract `tokenId` from a Location header URL.
///
/// Tries URL query-param extraction first, then falls back to regex for
/// path-embedded tokens (`tokenId=...`  or  `tokenId/...`).
pub fn extract_token_id(location: &str) -> (r: Result<String, String>)
    ensures
        ({
            let token = token_of(
                query_of(location@),
                first_match(TOKEN_EQUALS@, location@),
                first_match(TOKEN_PATH@, location@),
            );
            match r {
                Ok(t) => token == Some(t@),
                Err(e) => token is None && e@ == "Could not extract tokenId from: "@ + location@,
            }
        }),
{
    let query = parse_query(location);
    let equals = regex_captures(TOKEN_EQUALS, location);
    let path = regex_captures(TOKEN_PATH, location);
    match choose_token(query, equals, path) {
        Some(t) => Ok(t),
        None => {
            let mut e = "Could not extract tokenId from: ".to_owned();
            e.push_str(location);
            Err(e)
        },
    }
}

/// A text without the slashes at its end.
pub open spec fn drop_slashes(s: Seq<char>) -> Seq<char>
    decreases s.len(),
{
    if s.len() > 0 && s.last() == '/' {
        drop_slashes(s.drop_last())
    } else {
        s
    }
}

/// An address against a base, by the scheme and the host of the base.
pub open spec fn resolved(
    base: Seq<char>,
    url: Seq<char>,
    origin: Option<(Seq<char>, Option<Seq<char>>)>,
) -> Seq<char> {
    if starts_with_of(url, "http://"@) || starts_with_of(url, "https://"@) {
        url
    } else if starts_with_of(url, "/"@) {
        match origin {
            Some((scheme, host)) => scheme + "://"@ + (match host {
                Some(h) => h,
                None => ""@,
            }) + url,
            None => drop_slashes(base) + url,
        }
    } else {
        drop_slashes(base) + "/"@ + url
    }
}

/// A text without the slashes at its end.
fn without_slashes(s: &str) -> (r: String)
    ensures
        r@ == drop_slashes(s@),
{
    let chars = to_chars(s);
    let mut n: usize = chars.len();
    assert(s@.take(n as int) =~= s@);
    while n > 0 && chars[n - 1] == '/'
        invariant
            n <= chars@.len(),
            chars@ == s@,
            drop_slashes(s@) == drop_slashes(s@.take(n as int)),
        decreases n,
    {
        assert(s@.take(n as int).drop_last() =~= s@.take(n - 1));
        n -= 1;
    }
    let r = from_chars(&chars, 0, n);
    assert(r@ =~= s@.take(n as int));
    r
}

/// Resolve an address against a base, by the scheme and the host of the base.
pub fn resolve_against(base: &str, url: &str, origin: Option<(String, Option<String>)>) -> (r:
    String)
    ensures
        r@ == resolved(
            base@,
            url@,
            match origin {
                Some((s, h)) => Some((s@, opt_view(h))),
                None => None,
            },
        ),
{
    if starts_with(url, "http://") || starts_with(url, "https://") {
        return url.to_owned();
    }
    if starts_with(url, "/") {
        return match origin {
            Some((scheme, host)) => {
                let mut out = scheme;
                out.push_str("://");
                match host {
                    Some(h) => {
                        out.push_str(h.as_str());
                    },
                    None => {
                        out.push_str("");
                    },
                }
                out.push_str(url);
                out
            },
            None => {
                let mut out = without_slashes(base);
                out.push_str(url);
                out
            },
        };
    }
    let mut out = without_slashes(base);
    out.push_str("/");
    out.push_str(url);
    out
}

/// Resolve a potentially-relative URL against a base.
pub fn resolve_url(base: &str, url: &str) -> (r: String)
    ensures
        r@ == resolved(base@, url@, origin_of(base@)),
{
    resolve_against(base, url, parse_origin(base))
}

/// Every input of a form that has a name and a value is submitted with them, in the
/// order of the inputs; one without a name never is, and one without a value only where
/// that is wanted, with an empty one.
pub proof fn law_named_inputs_are_submitted(
    inputs: Seq<(Option<Seq<char>>, Option<Seq<char>>)>,
    more: (Option<Seq<char>>, Option<Seq<char>>),
    with_empty: bool,
)
    ensures
        named_inputs(inputs.push(more), with_empty) == match more {
            (Some(name), Some(value)) => named_inputs(inputs, with_empty).push((name, value)),
            (Some(name), None) => if with_empty {
                named_inputs(inputs, with_empty).push((name, Seq::empty()))
            } else {
                named_inputs(inputs, with_empty)
            },
            (None, _) => named_inputs(inputs, with_empty),
        },
        named_inputs(Seq::empty(), with_empty).len() == 0,
{
    reveal_strlit("");
    assert(""@ =~= Seq::empty());
    assert(inputs.push(more).drop_last() =~= inputs);
}

/// What is submitted is the first form with the address, and nothing of another.
pub proof fn law_first_form_is_submitted(forms: Seq<FormView>, action: Seq<char>, i: int)
    requires
        0 <= i < forms.len(),
        forms[i].0 == Some(action),
        forall|j: int| 0 <= j < i ==> (#[trigger] forms[j]).0 != Some(action),
    ensures
        action_inputs(forms, action) == Ok::<Seq<(Seq<char>, Seq<char>)>, Seq<char>>(
            named_inputs(forms[i].1, false),
        ),
    decreases i,
{
    if i > 0 {
        let rest = forms.skip(1);
        assert(forms[0].0 != Some(action));
        assert(rest[i - 1] == forms[i]);
        assert forall|j: int| 0 <= j < i - 1 implies (#[trigger] rest[j]).0 != Some(action) by {
            assert(rest[j] == forms[j + 1]);
        }
        law_first_form_is_submitted(rest, action, i - 1);
    }
}

/// The token is the first parameter of that name, and only where the address has none
/// the one that its text shows.
pub proof fn law_token_of_an_address(
    query: Seq<(Seq<char>, Seq<char>)>,
    i: int,
    equals: Option<Seq<Option<Seq<char>>>>,
    path: Option<Seq<Option<Seq<char>>>>,
)
    requires
        0 <= i <= query.len(),
        forall|j: int| 0 <= j < i ==> (#[trigger] query[j]).0 != "tokenId"@,
    ensures
        i < query.len() && query[i].0 == "tokenId"@ ==> token_of(Some(query), equals, path) == Some(
            query[i].1,
        ),
        i == query.len() ==> token_of(Some(query), equals, path) == token_of(None, equals, path),
        equals matches Some(g) ==> token_of(None, equals, path) == Some(group_text(g, 1)),
        equals is None ==> (path matches Some(g) ==> token_of(None, equals, path) == Some(
            group_text(g, 1),
        )),
        equals is None && path is None ==> token_of(None, equals, path) is None,
{
    lemma_token_in(query, i);
}

proof fn lemma_token_in(query: Seq<(Seq<char>, Seq<char>)>, i: int)
    requires
        0 <= i <= query.len(),
        forall|j: int| 0 <= j < i ==> (#[trigger] query[j]).0 != "tokenId"@,
    ensures
        i < query.len() && query[i].0 == "tokenId"@ ==> token_in(query) == Some(query[i].1),
        i == query.len() ==> token_in(query) is None,
    decreases i,
{
    if i > 0 {
        let rest = query.skip(1);
        assert(query[0].0 != "tokenId"@);
        assert forall|j: int| 0 <= j < i - 1 implies (#[trigger] rest[j]).0 != "tokenId"@ by {
            assert(rest[j] == query[j + 1]);
        }
        if i < query.len() {
            assert(rest[i - 1] == query[i]);
        }
        lemma_token_in(rest, i - 1);
    }
}

/// An address with a scheme stays as it is; one from the root goes to the host of the
/// base; and any other goes below the base, with one slash between them.
pub proof fn law_addresses_are_resolved(
    base: Seq<char>,
    url: Seq<char>,
    scheme: Seq<char>,
    host: Seq<char>,
)
    ensures
        starts_with_of(url, "https://"@) || starts_with_of(url, "http://"@) ==> resolved(
            base,
            url,
            Some((scheme, Some(host))),
        ) == url,
        url.len() > 0 && url[0] == '/' ==> resolved(base, url, Some((scheme, Some(host)))) == scheme
            + "://"@ + host + url,
        url.len() > 0 && url[0] == '/' ==> resolved(base, url, None) == drop_slashes(base) + url,
        url.len() > 0 && url[0] != '/' && url[0] != 'h' ==> resolved(
            base,
            url,
            Some((scheme, Some(host))),
        ) == drop_slashes(base) + "/"@ + url,
        drop_slashes(base).len() > 0 ==> drop_slashes(base).last() != '/',
        base.len() > 0 && base.last() != '/' ==> drop_slashes(base) == base,
        starts_with_of(base, drop_slashes(base)),
{
    reveal_strlit("http://");
    reveal_strlit("https://");
    reveal_strlit("/");
    if url.len() > 0 {
        if starts_with_of(url, "http://"@) {
            assert(url.subrange(0, 7)[0] == 'h');
        }
        if starts_with_of(url, "https://"@) {
            assert(url.subrange(0, 8)[0] == 'h');
        }
        if starts_with_of(url, "/"@) {
            assert(url.subrange(0, 1)[0] == '/');
        }
        if url[0] == '/' {
            assert(url.subrange(0, 1) =~= "/"@);
        }
    }
    lemma_dropped_slashes(base);
}

proof fn lemma_dropped_slashes(s: Seq<char>)
    ensures
        drop_slashes(s).len() > 0 ==> drop_slashes(s).last() != '/',
        starts_with_of(s, drop_slashes(s)),
    decreases s.len(),
{
    if s.len() > 0 && s.last() == '/' {
        lemma_dropped_slashes(s.drop_last());
        let t = drop_slashes(s);
        assert(s.subrange(0, t.len() as int) =~= s.drop_last().subrange(0, t.len() as int));
    } else {
        assert(s.subrange(0, s.len() as int) =~= s);
    }
}

/// The number that a digit of the base sixteen stands for.
spec fn hex_value(c: char) -> int {
    if '0' <= c && c <= '9' {
        c as int - '0' as int
    } else {
        c as int - 'A' as int + 10
    }
}

/// The bytes that a form gives: a percent sign and two digits are a byte, a plus sign is
/// a blank, and any other character is itself.
pub closed spec fn form_read(s: Seq<char>) -> Seq<u8>
    decreases s.len(),
{
    if s.len() == 0 {
        Seq::empty()
    } else if s[0] == '%' && s.len() >= 3 {
        seq![(hex_value(s[1]) * 16 + hex_value(s[2])) as u8] + form_read(s.skip(3))
    } else if s[0] == '+' {
        seq![0x20u8] + form_read(s.skip(1))
    } else {
        seq![s[0] as u8] + form_read(s.skip(1))
    }
}

/// A byte of a form is read back before the others.
proof fn lemma_form_byte(b: u8, rest: Seq<char>)
    ensures
        form_read(form_byte(b) + rest) == seq![b] + form_read(rest),
{
    let s = form_byte(b) + rest;
    if form_keeps(b) || b == 0x20 {
        assert(s.skip(1) =~= rest);
    } else {
        let h = b as int / 16;
        let l = b as int % 16;
        assert(s.skip(3) =~= rest);
        assert(s[0] == '%' && s[1] == hex_digit(h) && s[2] == hex_digit(l));
        assert(0 <= h < 16 && 0 <= l < 16);
        assert(hex_value(hex_digit(h)) == h);
        assert(hex_value(hex_digit(l)) == l);
    }
}

/// Bytes of a form are read back before the others.
proof fn lemma_form_bytes(bytes: Seq<u8>, rest: Seq<char>)
    ensures
        form_read(form_bytes(bytes) + rest) == bytes + form_read(rest),
    decreases bytes.len(),
{
    if bytes.len() == 0 {
        assert(form_bytes(bytes) + rest =~= rest);
        assert(bytes + form_read(rest) =~= form_read(rest));
    } else {
        let p = bytes.drop_last();
        let one = form_byte(bytes.last());
        assert(form_bytes(bytes) + rest =~= form_bytes(p) + (one + rest));
        lemma_form_bytes(p, one + rest);
        lemma_form_byte(bytes.last(), rest);
        assert(p + (seq![bytes.last()] + form_read(rest)) =~= bytes + form_read(rest));
    }
}

/// What a form gives for an encoded text are the bytes of the text.
pub proof fn law_forms_are_read_back(text: Seq<char>)
    ensures
        form_read(form_encoded(text)) == vstd::utf8::encode_utf8(text),
{
    let bytes = vstd::utf8::encode_utf8(text);
    lemma_form_bytes(bytes, Seq::empty());
    assert(form_bytes(bytes) + Seq::<char>::empty() =~= form_bytes(bytes));
    assert(bytes + Seq::<u8>::empty() =~= bytes);
    assert(form_read(Seq::empty()) =~= Seq::<u8>::empty());
}

/// A page leads on by its first form alone, and only where that form says where to.
pub proof fn law_page_leads_on_by_its_first_form(form: FormView, others: Seq<FormView>)
    ensures
        form.0 matches Some(action) ==> first_form(seq![form] + others) == Ok::<
            (Seq<char>, Seq<(Seq<char>, Seq<char>)>),
            Seq<char>,
        >((action, named_inputs(form.1, true))),
        form.0 is None ==> first_form(seq![form] + others) is Err,
        first_form(Seq::empty()) is Err,
{
}

} // verus!
