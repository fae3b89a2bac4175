//! Reactivating a frozen game account through the account website: log in,
//! keep the session cookies, ask for reactivation, and read the answer.
//! The requests themselves are made by the caller; this module decides what
//! to send next and what the answers mean.

use vstd::prelude::*;

use crate::text::{chars_of, contains_str, occurs_in};

verus! {

#[verifier::external_type_specification]
#[verifier::external_body]
pub struct ExUrlEncodeError(serde_urlencoded::ser::Error);

/// What `str::to_lowercase` gives back (Unicode lower case).
pub uninterp spec fn lowercase(text: Seq<char>) -> Seq<char>;

/// Calls `str::to_lowercase`; the result is named `lowercase` of the text.
#[verifier::external_body]
fn to_lowercase(text: &str) -> (lower: String)
    ensures
        lower@ == lowercase(text@),
{
    text.to_lowercase()
}

/// What `serde_urlencoded::to_string` writes for the two pairs
/// `[(name1, value1), (name2, value2)]`.
pub uninterp spec fn form_urlencoded(
    name1: Seq<char>,
    value1: Seq<char>,
    name2: Seq<char>,
    value2: Seq<char>,
) -> Seq<char>;

/// Calls `serde_urlencoded::to_string` on two string pairs. Its source
/// serializes an array of string pairs without an error path, so the result
/// is `Ok`; the text is named `form_urlencoded` of the four strings.
#[verifier::external_body]
fn urlencode_pairs(name1: &str, value1: &str, name2: &str, value2: &str) -> (encoded: Result<
    String,
    serde_urlencoded::ser::Error,
>)
    ensures
        encoded is Ok,
        encoded matches Ok(text) ==> text@ == form_urlencoded(name1@, value1@, name2@, value2@),
{
    serde_urlencoded::to_string([(name1, value1), (name2, value2)])
}

/// What `String::from_utf8_lossy` gives back for the bytes.
pub uninterp spec fn utf8_lossy(bytes: Seq<u8>) -> Seq<char>;

/// Calls `String::from_utf8_lossy`; the text is named `utf8_lossy` of the
/// bytes.
#[verifier::external_body]
fn decode_lossy(bytes: &[u8]) -> (text: String)
    ensures
        text@ == utf8_lossy(bytes@),
{
    String::from_utf8_lossy(bytes).into_owned()
}

/// How an unfreeze attempt ended.
#[derive(Debug, Clone, Copy, PartialEq, Eq, Structural)]
pub enum UnfreezeResult {
    Unfrozen,
    NotFrozen,
    Failed,
}

impl UnfreezeResult {
    /// Whether the account can be used afterwards.
    pub fn should_continue(&self) -> (go_on: bool)
        ensures
            go_on == (*self is Unfrozen || *self is NotFrozen),
    {
        match self {
            UnfreezeResult::Unfrozen | UnfreezeResult::NotFrozen => true,
            UnfreezeResult::Failed => false,
        }
    }
}

/// A form POST to the account website.
pub struct HttpPost {
    pub url: String,
    pub referer: String,
    pub cookie: Option<String>,
    pub body: String,
}

/// Where an attempt stands.
#[derive(Debug, Clone, Copy, PartialEq, Eq, Structural)]
pub enum UnfreezeStep {
    LoggingIn,
    Reactivating,
    ReadingBody,
    Finished(UnfreezeResult),
}

/// What came back for a request.
pub enum HttpOutcome {
    /// A response with this status; `set_cookies` holds each `Set-Cookie`
    /// header as text, or `None` where it is not visible ASCII.
    Response { status: u16, set_cookies: Vec<Option<String>> },
    /// The request failed.
    Failed,
    /// No response within the time limit.
    TimedOut,
}

/// What to do next.
pub enum UnfreezeAction {
    Send(HttpPost),
    ReadBody,
}

/// One attempt to reactivate an account.
pub struct Unfreeze {
    /// The account name, in lower case.
    pub username: String,
    /// The login form, URL-encoded.
    pub login_form: String,
    /// The session cookies, as a `Cookie` header.
    pub cookies: String,
    pub step: UnfreezeStep,
}

pub open spec fn login_url() -> Seq<char> {
    "https://register.funcom.com/account"@
}

pub open spec fn reactivate_url(username: Seq<char>) -> Seq<char> {
    "https://register.funcom.com/account/subscription/ctrl/anarchy/"@ + username
        + "/reactivate"@
}

pub open spec fn reactivate_form() -> Seq<char> {
    "process=submit"@
}

pub open spec fn reactivated_marker() -> Seq<char> {
    "<div>Subscription Reactivated</div>"@
}

pub open spec fn not_frozen_marker() -> Seq<char> {
    "<div>This account is not cancelled or frozen</div>"@
}

/// The part of a `Set-Cookie` value before the first `;`.
pub open spec fn cookie_pair(value: Seq<char>) -> Seq<char>
    decreases value.len(),
{
    if value.len() == 0 || value[0] == ';' {
        Seq::empty()
    } else {
        seq![value[0]] + cookie_pair(value.drop_first())
    }
}

/// The `Cookie` header that echoes `Set-Cookie` values: the pair of each
/// readable value, separated by `; `.
pub open spec fn cookie_header(values: Seq<Option<Seq<char>>>) -> Seq<char>
    decreases values.len(),
{
    if values.len() == 0 {
        Seq::empty()
    } else {
        let before = cookie_header(values.drop_last());
        match values.last() {
            None => before,
            Some(v) => if !has_readable(values.drop_last()) {
                cookie_pair(v)
            } else {
                before + "; "@ + cookie_pair(v)
            },
        }
    }
}

/// Some value is readable.
pub open spec fn has_readable(values: Seq<Option<Seq<char>>>) -> bool {
    exists|i: int| 0 <= i < values.len() && #[trigger] values[i] is Some
}

/// The cookie echoed for a `Set-Cookie` value is the value up to its first
/// `;`: a start of the value without `;`, which is the whole value or is
/// followed by `;` in it.
pub proof fn law_cookie_pair_is_first_part(value: Seq<char>)
    ensures
        cookie_pair(value).len() <= value.len(),
        cookie_pair(value) == value.take(cookie_pair(value).len() as int),
        forall|i: int| 0 <= i < cookie_pair(value).len() ==> #[trigger] cookie_pair(value)[i] != ';',
        cookie_pair(value).len() < value.len() ==> value[cookie_pair(value).len() as int] == ';',
    decreases value.len(),
{
    if value.len() > 0 && value[0] != ';' {
        let rest = value.drop_first();
        law_cookie_pair_is_first_part(rest);
        let p = cookie_pair(rest);
        assert(cookie_pair(value) == seq![value[0]] + p);
        assert(seq![value[0]] + p =~= value.take(p.len() + 1int)) by {
            assert forall|i: int| 0 <= i < p.len() + 1 implies (seq![value[0]] + p)[i] == value[i] by {
                if i > 0 {
                    assert(p[i - 1] == rest[i - 1]);
                }
            }
        }
        assert forall|i: int| 0 <= i < cookie_pair(value).len() implies #[trigger] cookie_pair(
            value,
        )[i] != ';' by {
            if i > 0 {
                assert(cookie_pair(value)[i] == p[i - 1]);
            }
        }
        if p.len() < rest.len() {
            assert(value[p.len() + 1int] == rest[p.len() as int]);
        }
    }
}

/// The `Cookie` header skips unreadable values and joins the cookies of the
/// readable ones, in order, with `; `: a single readable value gives its
/// cookie, and two runs of values that each hold a readable one give their
/// headers joined by `; `.
pub proof fn law_cookie_header_joins(
    first: Seq<Option<Seq<char>>>,
    second: Seq<Option<Seq<char>>>,
    value: Seq<char>,
)
    ensures
        !has_readable(first) ==> cookie_header(first) == Seq::<char>::empty(),
        cookie_header(first.push(None)) == cookie_header(first),
        cookie_header(seq![Some(value)]) == cookie_pair(value),
        has_readable(first) && has_readable(second) ==> cookie_header(first + second)
            == cookie_header(first) + "; "@ + cookie_header(second),
    decreases second.len(),
{
    if !has_readable(first) {
        lemma_no_readable_empty(first);
    }
    assert(first.push(None).drop_last() =~= first);
    assert(seq![Some(value)].drop_last() =~= Seq::<Option<Seq<char>>>::empty());
    if has_readable(first) && has_readable(second) {
        let both = first + second;
        let shorter = second.drop_last();
        assert(both.drop_last() =~= first + shorter);
        assert(both.last() == second.last());
        let k = choose|k: int| 0 <= k < first.len() && #[trigger] first[k] is Some;
        assert((first + shorter)[k] is Some);
        if has_readable(shorter) {
            law_cookie_header_joins(first, shorter, value);
            let j = choose|j: int| 0 <= j < shorter.len() && #[trigger] shorter[j] is Some;
            assert((first + shorter)[first.len() + j] is Some);
            assert(second[j] is Some);
            match second.last() {
                None => {},
                Some(v) => {
                    assert(cookie_header(both) =~= cookie_header(first) + "; "@ + cookie_header(
                        second,
                    ));
                },
            }
        } else {
            lemma_no_readable_empty(shorter);
            assert(first + shorter =~= first + shorter);
            assert(!(second.last() is None)) by {
                let j = choose|j: int| 0 <= j < second.len() && #[trigger] second[j] is Some;
                if j < shorter.len() {
                    assert(shorter[j] is Some);
                }
            }
            assert(cookie_header(first + shorter) == cookie_header(first)) by {
                lemma_header_unreadable_suffix(first, shorter);
            }
            assert(cookie_header(second) =~= cookie_pair(second.last()->0));
            assert(cookie_header(both) =~= cookie_header(first) + "; "@ + cookie_header(second));
        }
    }
}

proof fn lemma_header_unreadable_suffix(first: Seq<Option<Seq<char>>>, rest: Seq<Option<Seq<char>>>)
    requires
        !has_readable(rest),
    ensures
        cookie_header(first + rest) == cookie_header(first),
        has_readable(first + rest) == has_readable(first),
    decreases rest.len(),
{
    if rest.len() == 0 {
        assert(first + rest =~= first);
    } else {
        let shorter = rest.drop_last();
        assert(!has_readable(shorter)) by {
            if has_readable(shorter) {
                let j = choose|j: int| 0 <= j < shorter.len() && #[trigger] shorter[j] is Some;
                assert(rest[j] is Some);
            }
        }
        assert(!(rest[rest.len() - 1] is Some));
        lemma_header_unreadable_suffix(first, shorter);
        assert((first + rest).drop_last() =~= first + shorter);
        assert((first + rest).last() == rest.last());
        if has_readable(first + rest) {
            let j = choose|j: int| 0 <= j < (first + rest).len() && #[trigger] (first + rest)[j] is Some;
            if j < first.len() {
                assert(first[j] is Some);
            } else {
                assert(rest[j - first.len()] is Some);
            }
        }
        if has_readable(first) {
            let j = choose|j: int| 0 <= j < first.len() && #[trigger] first[j] is Some;
            assert((first + rest)[j] is Some);
        }
    }
}

/// The requests of an attempt: the login posts the login form to the
/// account page, with that page as referer and no cookie; the reactivation
/// posts `process=submit` to the account's reactivation page, with that page
/// as referer and the session cookies.
pub proof fn law_request_shapes(post: HttpPost, form: Seq<char>, username: Seq<char>, cookies: Seq<char>)
    ensures
        is_login_post(post, form) <==> (post.url@ == "https://register.funcom.com/account"@
            && post.referer@ == "https://register.funcom.com/account"@ && post.cookie is None
            && post.body@ == form),
        is_reactivate_post(post, username, cookies) <==> (post.url@
            == "https://register.funcom.com/account/subscription/ctrl/anarchy/"@ + username
            + "/reactivate"@ && post.referer@ == post.url@ && post.cookie is Some
            && post.cookie->0@ == cookies && post.body@ == "process=submit"@),
{
}

pub open spec fn opt_strings_view(values: Seq<Option<String>>) -> Seq<Option<Seq<char>>> {
    values.map_values(
        |v: Option<String>|
            match v {
                Some(s) => Some(s@),
                None => None,
            },
    )
}

/// The outcome that the page text tells.
pub open spec fn spec_classify(text: Seq<char>) -> UnfreezeResult {
    if occurs_in(text, reactivated_marker()) {
        UnfreezeResult::Unfrozen
    } else if occurs_in(text, not_frozen_marker()) {
        UnfreezeResult::NotFrozen
    } else {
        UnfreezeResult::Failed
    }
}

proof fn lemma_occurs_in_middle(before: Seq<char>, marker: Seq<char>, after: Seq<char>)
    ensures
        occurs_in(before + marker + after, marker),
{
    let text = before + marker + after;
    let i = before.len() as int;
    assert(text.subrange(i, i + marker.len()) =~= marker);
}

/// The answer page is read by what it contains, wherever in the page: a page
/// with the reactivation marker anywhere means the account was unfrozen; a
/// page without it that has the not-frozen marker anywhere means the account
/// was not frozen; a page with neither means the attempt failed.
pub proof fn law_answer_markers_anywhere(before: Seq<char>, after: Seq<char>, page: Seq<char>)
    ensures
        spec_classify(before + reactivated_marker() + after) == UnfreezeResult::Unfrozen,
        !occurs_in(before + not_frozen_marker() + after, reactivated_marker()) ==> spec_classify(
            before + not_frozen_marker() + after,
        ) == UnfreezeResult::NotFrozen,
        !occurs_in(page, reactivated_marker()) && !occurs_in(page, not_frozen_marker())
            ==> spec_classify(page) == UnfreezeResult::Failed,
        spec_classify(page) == UnfreezeResult::Unfrozen ==> occurs_in(page, reactivated_marker()),
        spec_classify(page) == UnfreezeResult::NotFrozen ==> occurs_in(page, not_frozen_marker()),
        page.len() < reactivated_marker().len() ==> spec_classify(page) == UnfreezeResult::Failed,
        reactivated_marker() == "<div>Subscription Reactivated</div>"@,
        not_frozen_marker() == "<div>This account is not cancelled or frozen</div>"@,
{
    reveal_strlit("<div>Subscription Reactivated</div>");
    reveal_strlit("<div>This account is not cancelled or frozen</div>");
    assert(reactivated_marker().len() < not_frozen_marker().len());
    lemma_occurs_in_middle(before, reactivated_marker(), after);
    lemma_occurs_in_middle(before, not_frozen_marker(), after);
}

pub open spec fn is_login_post(post: HttpPost, login_form: Seq<char>) -> bool {
    &&& post.url@ == login_url()
    &&& post.referer@ == login_url()
    &&& post.cookie is None
    &&& post.body@ == login_form
}

pub open spec fn is_reactivate_post(post: HttpPost, username: Seq<char>, cookies: Seq<char>) -> bool {
    &&& post.url@ == reactivate_url(username)
    &&& post.referer@ == reactivate_url(username)
    &&& post.cookie matches Some(c) && c@ == cookies
    &&& post.body@ == reactivate_form()
}

/// The part of `value` before its first `;`.
fn first_pair(value: &str) -> (pair: String)
    ensures
        pair@ == cookie_pair(value@),
{
    let chars = chars_of(value);
    let mut i: usize = 0;
    assert(value@.skip(0) =~= value@);
    assert(value@.take(0) + value@ =~= value@);
    while i < chars.len() && chars[i] != ';'
        invariant
            chars@ == value@,
            i <= chars.len(),
            cookie_pair(value@) == value@.take(i as int) + cookie_pair(value@.skip(i as int)),
        decreases chars.len() - i,
    {
        let ghost rest = value@.skip(i as int);
        assert(rest.drop_first() =~= value@.skip(i + 1));
        assert(value@.take(i + 1) =~= value@.take(i as int) + seq![rest[0]]);
        i = i + 1;
    }
    assert(value@.skip(i as int).len() == 0 || value@.skip(i as int)[0] == ';');
    assert(value@.take(i as int) + Seq::<char>::empty() =~= value@.take(i as int));
    String::from_str(value.substring_char(0, i))
}

/// The `Cookie` header that echoes the `Set-Cookie` values of a response.
pub fn cookies_from(values: &Vec<Option<String>>) -> (header: String)
    ensures
        header@ == cookie_header(opt_strings_view(values@)),
{
    let ghost all = opt_strings_view(values@);
    let mut header = String::new();
    let mut any = false;
    let mut i: usize = 0;
    while i < values.len()
        invariant
            i <= values.len(),
            all == opt_strings_view(values@),
            header@ == cookie_header(all.take(i as int)),
            any == has_readable(all.take(i as int)),
        decreases values.len() - i,
    {
        let ghost before = all.take(i as int);
        let ghost after = all.take(i + 1);
        assert(after.drop_last() =~= before);
        assert(after.last() == all[i as int]);
        match &values[i] {
            Some(v) => {
                if any {
                    header.append("; ");
                } else {
                    assert(header@.len() == 0) by {
                        lemma_no_readable_empty(before);
                    }
                }
                let pair = first_pair(v.as_str());
                header.append(pair.as_str());
                any = true;
                assert(after[i as int] is Some);
            },
            None => {
                assert forall|k: int| 0 <= k < after.len() && #[trigger] after[k] is Some implies k
                    < before.len() by {}
                assert(has_readable(after) == has_readable(before)) by {
                    if has_readable(after) {
                        let k = choose|k: int| 0 <= k < after.len() && #[trigger] after[k] is Some;
                        assert(before[k] is Some);
                    }
                    if has_readable(before) {
                        let k = choose|k: int| 0 <= k < before.len() && #[trigger] before[k] is Some;
                        assert(after[k] is Some);
                    }
                }
            },
        }
        proof {
            if has_readable(before) {
                let k = choose|k: int| 0 <= k < before.len() && #[trigger] before[k] is Some;
                assert(after[k] is Some);
            }
        }
        i = i + 1;
    }
    assert(all.take(i as int) =~= all);
    header
}

proof fn lemma_no_readable_empty(values: Seq<Option<Seq<char>>>)
    requires
        !has_readable(values),
    ensures
        cookie_header(values).len() == 0,
    decreases values.len(),
{
    if values.len() > 0 {
        assert(values.last() is None) by {
            assert(!(values[values.len() - 1] is Some));
        }
        assert(!has_readable(values.drop_last())) by {
            if has_readable(values.drop_last()) {
                let k = choose|k: int|
                    0 <= k < values.drop_last().len() && #[trigger] values.drop_last()[k] is Some;
                assert(values[k] is Some);
            }
        }
        lemma_no_readable_empty(values.drop_last());
    }
}

/// The outcome that a page text tells.
pub fn classify(text: &str) -> (result: UnfreezeResult)
    ensures
        result == spec_classify(text@),
{
    if contains_str(text, "<div>Subscription Reactivated</div>") {
        UnfreezeResult::Unfrozen
    } else if contains_str(text, "<div>This account is not cancelled or frozen</div>") {
        UnfreezeResult::NotFrozen
    } else {
        UnfreezeResult::Failed
    }
}

/// The URL-encoded login form of an account.
pub fn login_form(username: &str, password: &str) -> (form: String)
    ensures
        form@ == form_urlencoded("__ac_name"@, username@, "__ac_password"@, password@),
{
    urlencode_pairs("__ac_name", username, "__ac_password", password).unwrap()
}

impl Unfreeze {
    pub open spec fn spec_login_post(&self, post: HttpPost) -> bool {
        is_login_post(post, self.login_form@)
    }

    pub open spec fn spec_reactivate_post(&self, post: HttpPost) -> bool {
        is_reactivate_post(post, self.username@, self.cookies@)
    }

    fn login_post(&self) -> (post: HttpPost)
        ensures
            is_login_post(post, self.login_form@),
    {
        HttpPost {
            url: String::from_str("https://register.funcom.com/account"),
            referer: String::from_str("https://register.funcom.com/account"),
            cookie: None,
            body: self.login_form.clone(),
        }
    }

    fn reactivate_post(&self) -> (post: HttpPost)
        ensures
            is_reactivate_post(post, self.username@, self.cookies@),
    {
        let mut url = String::from_str(
            "https://register.funcom.com/account/subscription/ctrl/anarchy/",
        );
        url.append(self.username.as_str());
        url.append("/reactivate");
        let referer = url.clone();
        HttpPost {
            url,
            referer,
            cookie: Some(self.cookies.clone()),
            body: String::from_str("process=submit"),
        }
    }

    /// Starts an attempt for an account: the name is put in lower case, and
    /// the first request is the login.
    pub fn start(username: &str, password: &str) -> (started: (Unfreeze, HttpPost))
        ensures
            started.0.username@ == lowercase(username@),
            started.0.login_form@ == form_urlencoded(
                "__ac_name"@,
                lowercase(username@),
                "__ac_password"@,
                password@,
            ),
            started.0.cookies@.len() == 0,
            started.0.step == UnfreezeStep::LoggingIn,
            is_login_post(started.1, started.0.login_form@),
    {
        let lower = to_lowercase(username);
        let form = login_form(lower.as_str(), password);
        let attempt = Unfreeze {
            username: lower,
            login_form: form,
            cookies: String::new(),
            step: UnfreezeStep::LoggingIn,
        };
        let post = attempt.login_post();
        (attempt, post)
    }

    /// Takes the outcome of the last request. A login is repeated until it
    /// answers with a redirect (302), whose cookies are kept; the
    /// reactivation is repeated until it answers 200, after which the body is
    /// read.
    pub fn on_outcome(&mut self, outcome: HttpOutcome) -> (action: UnfreezeAction)
        requires
            old(self).step == UnfreezeStep::LoggingIn || old(self).step
                == UnfreezeStep::Reactivating,
        ensures
            final(self).username == old(self).username,
            final(self).login_form == old(self).login_form,
            old(self).step == UnfreezeStep::LoggingIn ==> match outcome {
                HttpOutcome::Response { status, set_cookies } => if status == 302 {
                    &&& final(self).step == UnfreezeStep::Reactivating
                    &&& final(self).cookies@ == cookie_header(opt_strings_view(set_cookies@))
                    &&& action matches UnfreezeAction::Send(post) && is_reactivate_post(
                        post,
                        old(self).username@,
                        final(self).cookies@,
                    )
                } else {
                    &&& final(self).step == UnfreezeStep::LoggingIn
                    &&& final(self).cookies == old(self).cookies
                    &&& action matches UnfreezeAction::Send(post) && is_login_post(
                        post,
                        old(self).login_form@,
                    )
                },
                _ => {
                    &&& final(self).step == UnfreezeStep::LoggingIn
                    &&& final(self).cookies == old(self).cookies
                    &&& action matches UnfreezeAction::Send(post) && is_login_post(
                        post,
                        old(self).login_form@,
                    )
                },
            },
            old(self).step == UnfreezeStep::Reactivating ==> {
                &&& final(self).cookies == old(self).cookies
                &&& if outcome matches HttpOutcome::Response { status, .. } && status == 200 {
                    &&& final(self).step == UnfreezeStep::ReadingBody
                    &&& action is ReadBody
                } else {
                    &&& final(self).step == UnfreezeStep::Reactivating
                    &&& action matches UnfreezeAction::Send(post) && is_reactivate_post(
                        post,
                        old(self).username@,
                        old(self).cookies@,
                    )
                }
            },
    {
        match self.step {
            UnfreezeStep::LoggingIn => {
                if let HttpOutcome::Response { status, set_cookies } = &outcome {
                    if *status == 302 {
                        self.cookies = cookies_from(set_cookies);
                        self.step = UnfreezeStep::Reactivating;
                        return UnfreezeAction::Send(self.reactivate_post());
                    }
                }
                UnfreezeAction::Send(self.login_post())
            },
            _ => {
                if let HttpOutcome::Response { status, .. } = &outcome {
                    if *status == 200 {
                        self.step = UnfreezeStep::ReadingBody;
                        return UnfreezeAction::ReadBody;
                    }
                }
                UnfreezeAction::Send(self.reactivate_post())
            },
        }
    }

    /// Reads the body of the reactivation answer and ends the attempt.
    pub fn on_body(&mut self, body: &[u8]) -> (result: UnfreezeResult)
        requires
            old(self).step == UnfreezeStep::ReadingBody,
        ensures
            result == spec_classify(utf8_lossy(body@)),
            final(self).step == UnfreezeStep::Finished(result),
            final(self).username == old(self).username,
            final(self).login_form == old(self).login_form,
            final(self).cookies == old(self).cookies,
    {
        let text = decode_lossy(body);
        let result = classify(text.as_str());
        self.step = UnfreezeStep::Finished(result);
        result
    }
}

} // verus!
