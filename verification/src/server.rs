//! Request handling of the configuration web API: what each endpoint
//! answers and how it changes the shared state. Reading the request and
//! writing the reply over HTTP are left to the caller.

use vstd::prelude::*;
use vstd::utf8::*;
use crate::shared::{
    initial_state, rule_list_push, Rule, SensorData, SharedState, SharedStateView, WifiConfig,
};
use crate::text::{
    byte_len, password_as_str, password_new, password_push_str, password_text, request_text,
    lemma_byte_len_concat, ssid_as_str, ssid_new, ssid_push_str, ssid_text, str_eq,
};

verus! {

broadcast use vstd::utf8::group_utf8_lib;

/// A reply of the web API: an HTTP status and a short text.
#[derive(Debug, Clone, Copy, PartialEq, Eq, Structural)]
pub enum Reply {
    /// 200, "Relay updated".
    RelayUpdated,
    /// 400, "Invalid state".
    InvalidState,
    /// 200, "Rule added".
    RuleAdded,
    /// 400, "Invalid input".
    InvalidInput,
    /// 303, "Restarting...".
    Restarting,
}

/// Why a request failed: the request is answered with an error.
#[derive(Debug, Clone, Copy, PartialEq, Eq)]
pub enum HandlerError {
    /// The body is not valid UTF-8; std's error for it, whose text is the
    /// text of this error.
    InvalidUtf8(core::str::Utf8Error),
    /// The network names given add up to more than 32 bytes.
    SsidTooLong,
    /// The passwords given add up to more than 64 bytes.
    PasswordTooLong,
    /// Eight rules are held already.
    RulesFull,
}

impl Reply {
    /// The HTTP status code of the reply.
    pub open spec fn spec_code(self) -> u16 {
        match self {
            Reply::RelayUpdated | Reply::RuleAdded => 200,
            Reply::InvalidState | Reply::InvalidInput => 400,
            Reply::Restarting => 303,
        }
    }

    /// The HTTP status code of the reply.
    pub fn code(&self) -> (c: u16)
        ensures
            c == self.spec_code(),
    {
        match self {
            Reply::RelayUpdated | Reply::RuleAdded => 200,
            Reply::InvalidState | Reply::InvalidInput => 400,
            Reply::Restarting => 303,
        }
    }

    /// The body of the reply.
    pub fn message(&self) -> (m: &'static str)
        ensures
            *self == Reply::RelayUpdated ==> m@ == "Relay updated"@,
            *self == Reply::InvalidState ==> m@ == "Invalid state"@,
            *self == Reply::RuleAdded ==> m@ == "Rule added"@,
            *self == Reply::InvalidInput ==> m@ == "Invalid input"@,
            *self == Reply::Restarting ==> m@ == "Restarting..."@,
    {
        match self {
            Reply::RelayUpdated => "Relay updated",
            Reply::InvalidState => "Invalid state",
            Reply::RuleAdded => "Rule added",
            Reply::InvalidInput => "Invalid input",
            Reply::Restarting => "Restarting...",
        }
    }
}

impl HandlerError {
    /// The fixed text of the error; `None` for `InvalidUtf8`, whose text is
    /// that of the std error it carries.
    pub fn message(&self) -> (m: Option<&'static str>)
        ensures
            m is None <==> *self is InvalidUtf8,
            *self == HandlerError::SsidTooLong ==> (m matches Some(t) && t@ == "SSID too long"@),
            *self == HandlerError::PasswordTooLong ==> (m matches Some(t) && t@
                == "Password too long"@),
            *self == HandlerError::RulesFull ==> (m matches Some(t) && t@ == "Rules full"@),
    {
        match self {
            HandlerError::InvalidUtf8(_) => None,
            HandlerError::SsidTooLong => Some("SSID too long"),
            HandlerError::PasswordTooLong => Some("Password too long"),
            HandlerError::RulesFull => Some("Rules full"),
        }
    }
}

/// The text of a body that is valid UTF-8.
pub open spec fn body_text(body: Seq<u8>) -> Seq<char> {
    decode_utf8(body)
}

/// A request to the web API, as far as the shared state is concerned.
pub enum ApiRequest {
    /// `POST /api/relay` with this body.
    Relay(Seq<u8>),
    /// `POST /api/rules` with this rule, once read from the JSON body.
    AddRule(Rule),
    /// Any request that only reads the shared state or does not touch it:
    /// `GET /`, `GET /api/data`, `POST /api/config`, a rule evaluation or
    /// a read of the relay.
    Other,
}

/// The shared state once `request` is handled in `s`.
pub open spec fn request_effect(s: SharedStateView, request: ApiRequest) -> SharedStateView {
    match request {
        ApiRequest::Relay(body) => if valid_utf8(body) && body_text(body) == "on"@ {
            SharedStateView { relay: true, ..s }
        } else if valid_utf8(body) && body_text(body) == "off"@ {
            SharedStateView { relay: false, ..s }
        } else {
            s
        },
        ApiRequest::AddRule(rule) => if s.rules.len() < 8 {
            SharedStateView { rules: s.rules.push(rule), ..s }
        } else {
            s
        },
        ApiRequest::Other => s,
    }
}

/// The shared state once `requests` are handled in turn, from `s`.
pub open spec fn run_requests(s: SharedStateView, requests: Seq<ApiRequest>) -> SharedStateView
    decreases requests.len(),
{
    if requests.len() == 0 {
        s
    } else {
        request_effect(run_requests(s, requests.drop_last()), requests.last())
    }
}

/// Whether the relay is on after `requests`, when it was at `initial`
/// before them: as the last relay request whose body is exactly `on` or
/// `off` set it, or `initial` when there is none.
pub open spec fn last_relay_command(requests: Seq<ApiRequest>, initial: bool) -> bool
    decreases requests.len(),
{
    if requests.len() == 0 {
        initial
    } else {
        match requests.last() {
            ApiRequest::Relay(body) => if valid_utf8(body) && body_text(body) == "on"@ {
                true
            } else if valid_utf8(body) && body_text(body) == "off"@ {
                false
            } else {
                last_relay_command(requests.drop_last(), initial)
            },
            _ => last_relay_command(requests.drop_last(), initial),
        }
    }
}

/// What a relay request does: a body of exactly `on` switches the relay on,
/// exactly `off` switches it off, anything else changes nothing; rules and
/// readings stay.
pub proof fn lemma_relay_request_meaning(s: SharedStateView, body: Seq<u8>)
    ensures
        request_effect(s, ApiRequest::Relay(body)).rules == s.rules,
        request_effect(s, ApiRequest::Relay(body)).sensor_data == s.sensor_data,
        valid_utf8(body) && body_text(body) == "on"@ ==> request_effect(
            s,
            ApiRequest::Relay(body),
        ).relay,
        valid_utf8(body) && body_text(body) == "off"@ ==> !request_effect(
            s,
            ApiRequest::Relay(body),
        ).relay,
        !(valid_utf8(body) && (body_text(body) == "on"@ || body_text(body) == "off"@))
            ==> request_effect(s, ApiRequest::Relay(body)) == s,
{
    reveal_strlit("on");
    reveal_strlit("off");
    assert("on"@.len() == 2 && "off"@.len() == 3);
}

/// What adding a rule does: below 8 rules it is appended after the others;
/// at 8 nothing changes; the relay and readings stay.
pub proof fn lemma_add_rule_meaning(s: SharedStateView, rule: Rule)
    ensures
        s.rules.len() < 8 ==> request_effect(s, ApiRequest::AddRule(rule)).rules == s.rules.push(
            rule,
        ),
        s.rules.len() >= 8 ==> request_effect(s, ApiRequest::AddRule(rule)) == s,
        request_effect(s, ApiRequest::AddRule(rule)).relay == s.relay,
        request_effect(s, ApiRequest::AddRule(rule)).sensor_data == s.sensor_data,
{
}

/// Rules are only ever appended: whatever requests come, the rules held
/// before them stay, in order, at the front; there are never more than 8
/// when there were at most 8; and the readings never change.
pub proof fn lemma_rules_only_appended(s: SharedStateView, requests: Seq<ApiRequest>)
    ensures
        s.rules.len() <= run_requests(s, requests).rules.len(),
        run_requests(s, requests).rules.subrange(0, s.rules.len() as int) == s.rules,
        s.rules.len() <= 8 ==> run_requests(s, requests).rules.len() <= 8,
        run_requests(s, requests).sensor_data == s.sensor_data,
    decreases requests.len(),
{
    if requests.len() > 0 {
        lemma_rules_only_appended(s, requests.drop_last());
        let before = run_requests(s, requests.drop_last()).rules;
        let after = run_requests(s, requests).rules;
        if after != before {
            assert(after == before.push(requests.last()->AddRule_0));
            assert(after.subrange(0, s.rules.len() as int) =~= before.subrange(0, s.rules.len() as int));
        }
    }
}

/// The relay follows the last relay request whose body is exactly `on` or
/// `off`; every other request leaves it as it was.
pub proof fn lemma_relay_follows_last_command(s: SharedStateView, requests: Seq<ApiRequest>)
    ensures
        run_requests(s, requests).relay == last_relay_command(requests, s.relay),
    decreases requests.len(),
{
    if requests.len() > 0 {
        lemma_relay_follows_last_command(s, requests.drop_last());
    }
}

/// From start-up, whatever requests come: at most 8 rules, the rules are
/// those added, in order, and the relay is on exactly when the last relay
/// request that was exactly `on` or `off` was `on` (off when none was).
pub proof fn lemma_state_since_boot(sensor_data: SensorData, requests: Seq<ApiRequest>)
    ensures
        run_requests(initial_state(sensor_data), requests).rules.len() <= 8,
        run_requests(initial_state(sensor_data), requests).relay == last_relay_command(
            requests,
            false,
        ),
        run_requests(initial_state(sensor_data), requests).sensor_data == sensor_data,
{
    lemma_rules_only_appended(initial_state(sensor_data), requests);
    lemma_relay_follows_last_command(initial_state(sensor_data), requests);
}

/// Sets the relay as a body of `on` or `off` asks: `Ok(RelayUpdated)` then;
/// `Ok(InvalidState)`, with the relay unchanged, for any other text; and
/// `Err(InvalidUtf8)`, with nothing changed, when the body is not UTF-8.
/// Rules and readings never change.
pub fn handle_relay_request(state: &mut SharedState, body: &[u8]) -> (res: Result<Reply, HandlerError>)
    ensures
        final(state)@ == request_effect(old(state)@, ApiRequest::Relay(body@)),
        final(state).rules == old(state).rules,
        final(state).sensor_data == old(state).sensor_data,
        !valid_utf8(body@) ==> (res matches Err(HandlerError::InvalidUtf8(_)))
            && final(state).relay_state == old(state).relay_state,
        valid_utf8(body@) && body_text(body@) == "on"@ ==> res == Ok::<Reply, HandlerError>(
            Reply::RelayUpdated,
        ) && final(state).relay_state,
        valid_utf8(body@) && body_text(body@) == "off"@ ==> res == Ok::<Reply, HandlerError>(
            Reply::RelayUpdated,
        ) && !final(state).relay_state,
        valid_utf8(body@) && body_text(body@) != "on"@ && body_text(body@) != "off"@ ==> res
            == Ok::<Reply, HandlerError>(Reply::InvalidState) && final(state).relay_state == old(
            state,
        ).relay_state,
{
    let text = match request_text(body) {
        Ok(t) => t,
        Err(e) => return Err(HandlerError::InvalidUtf8(e)),
    };
    proof {
        reveal_strlit("on");
        reveal_strlit("off");
    }
    if str_eq(text, "on") {
        state.relay_state = true;
        Ok(Reply::RelayUpdated)
    } else if str_eq(text, "off") {
        state.relay_state = false;
        Ok(Reply::RelayUpdated)
    } else {
        Ok(Reply::InvalidState)
    }
}

/// Adds `rule` after the rules held: `Ok(RuleAdded)` when fewer than 8 are
/// held, `Err(RulesFull)` with the rules unchanged otherwise. Readings and
/// relay never change.
pub fn add_rule(state: &mut SharedState, rule: Rule) -> (res: Result<Reply, HandlerError>)
    ensures
        final(state)@ == request_effect(old(state)@, ApiRequest::AddRule(rule)),
        final(state).rules_view().len() <= 8,
        final(state).sensor_data == old(state).sensor_data,
        final(state).relay_state == old(state).relay_state,
        old(state).rules_view().len() < 8 ==> res == Ok::<Reply, HandlerError>(Reply::RuleAdded)
            && final(state).rules_view() == old(state).rules_view().push(rule),
        old(state).rules_view().len() >= 8 ==> res == Err::<Reply, HandlerError>(
            HandlerError::RulesFull,
        ) && final(state).rules_view() == old(state).rules_view(),
{
    match rule_list_push(&mut state.rules, rule) {
        Ok(()) => Ok(Reply::RuleAdded),
        Err(_) => Err(HandlerError::RulesFull),
    }
}

/// The (name, value) pairs that `form_urlencoded::parse` reads from a body
/// in the `application/x-www-form-urlencoded` syntax, percent-decoded.
pub uninterp spec fn form_decode(input: Seq<u8>) -> Seq<(Seq<char>, Seq<char>)>;

/// The texts of a list of (name, value) pairs.
pub open spec fn pair_views(pairs: Seq<(String, String)>) -> Seq<(Seq<char>, Seq<char>)> {
    pairs.map_values(|p: (String, String)| (p.0@, p.1@))
}

/// `form_urlencoded::parse`, with every pair collected as owned strings.
/// The pairs are a function of the input alone, named by `form_decode`.
#[verifier::external_body]
fn form_pairs(input: &[u8]) -> (res: Vec<(String, String)>)
    ensures
        pair_views(res@) == form_decode(input@),
{
    form_urlencoded::parse(input).into_owned().collect()
}

/// The network name and password that a form's pairs give, read in order:
/// the values of all `ssid` pairs are joined into the name and those of all
/// `password` pairs into the password; other pairs are ignored. The first
/// pair that takes the name past 32 bytes gives `SsidTooLong`, the first
/// that takes the password past 64 bytes gives `PasswordTooLong`.
pub open spec fn form_credentials(pairs: Seq<(Seq<char>, Seq<char>)>) -> Result<(Seq<char>, Seq<char>), HandlerError>
    decreases pairs.len(),
{
    if pairs.len() == 0 {
        Ok((Seq::<char>::empty(), Seq::<char>::empty()))
    } else {
        match form_credentials(pairs.drop_last()) {
            Err(e) => Err(e),
            Ok((s, p)) => {
                let (k, v) = pairs.last();
                if k == "ssid"@ {
                    if byte_len(s) + byte_len(v) <= 32 {
                        Ok((s + v, p))
                    } else {
                        Err(HandlerError::SsidTooLong)
                    }
                } else if k == "password"@ {
                    if byte_len(p) + byte_len(v) <= 64 {
                        Ok((s, p + v))
                    } else {
                        Err(HandlerError::PasswordTooLong)
                    }
                } else {
                    Ok((s, p))
                }
            },
        }
    }
}

/// The values of all pairs named `key`, joined in the order of the pairs.
pub open spec fn joined_values(pairs: Seq<(Seq<char>, Seq<char>)>, key: Seq<char>) -> Seq<char>
    decreases pairs.len(),
{
    if pairs.len() == 0 {
        Seq::<char>::empty()
    } else if pairs.last().0 == key {
        joined_values(pairs.drop_last(), key) + pairs.last().1
    } else {
        joined_values(pairs.drop_last(), key)
    }
}

/// The name and password that a form gives are the values of all its
/// `ssid` pairs and of all its `password` pairs, each joined in order,
/// wherever the other pairs stand; and the form gives them whenever they fit
/// 32 and 64 bytes.
pub proof fn lemma_form_joins_values(pairs: Seq<(Seq<char>, Seq<char>)>)
    ensures
        form_credentials(pairs) matches Ok((s, p)) ==> s == joined_values(pairs, "ssid"@) && p
            == joined_values(pairs, "password"@),
        byte_len(joined_values(pairs, "ssid"@)) <= 32 && byte_len(joined_values(pairs, "password"@))
            <= 64 ==> form_credentials(pairs) == Ok::<(Seq<char>, Seq<char>), HandlerError>(
            (joined_values(pairs, "ssid"@), joined_values(pairs, "password"@)),
        ),
    decreases pairs.len(),
{
    reveal_strlit("ssid");
    reveal_strlit("password");
    assert("ssid"@ != "password"@) by {
        assert("ssid"@.len() == 4 && "password"@.len() == 8);
    }
    if pairs.len() > 0 {
        let init = pairs.drop_last();
        let (k, v) = pairs.last();
        lemma_form_joins_values(init);
        let s0 = joined_values(init, "ssid"@);
        let p0 = joined_values(init, "password"@);
        lemma_byte_len_concat(s0, v);
        lemma_byte_len_concat(p0, v);
        assert(byte_len(s0) >= 0 && byte_len(p0) >= 0 && byte_len(v) >= 0);
    }
}

/// Once a prefix of the pairs fails, all of them fail with the same error.
proof fn lemma_form_error_sticks(pairs: Seq<(Seq<char>, Seq<char>)>, i: int)
    requires
        0 <= i <= pairs.len(),
        form_credentials(pairs.take(i)) is Err,
    ensures
        form_credentials(pairs) == form_credentials(pairs.take(i)),
    decreases pairs.len() - i,
{
    if i == pairs.len() {
        assert(pairs.take(i) =~= pairs);
    } else {
        assert(pairs.take(i + 1).drop_last() =~= pairs.take(i));
        lemma_form_error_sticks(pairs, i + 1);
    }
}

/// Collects the network name and password from a form's pairs into their
/// 32- and 64-byte buffers, as `form_credentials` says.
pub fn collect_credentials(pairs: &Vec<(String, String)>) -> (res: Result<(heapless::String<32>, heapless::String<64>), HandlerError>)
    ensures
        form_credentials(pair_views(pairs@)) is Err ==> res is Err && res->Err_0 == form_credentials(
            pair_views(pairs@),
        )->Err_0,
        form_credentials(pair_views(pairs@)) is Ok ==> (res matches Ok((s, p)) && (
        ssid_text(s), password_text(p)) == form_credentials(pair_views(pairs@))->Ok_0),
{
    let ghost views = pair_views(pairs@);
    let mut ssid = ssid_new();
    let mut password = password_new();
    let n = pairs.len();
    let mut i: usize = 0;
    proof {
        assert(views.take(0) =~= Seq::<(Seq<char>, Seq<char>)>::empty());
    }
    while i < n
        invariant
            n == pairs@.len(),
            views == pair_views(pairs@),
            i <= n,
            form_credentials(views.take(i as int)) == Ok::<(Seq<char>, Seq<char>), HandlerError>(
                (ssid_text(ssid), password_text(password)),
            ),
        decreases n - i,
    {
        let key = pairs[i].0.as_str();
        let value = pairs[i].1.as_str();
        proof {
            assert(views.take(i + 1).drop_last() =~= views.take(i as int));
            assert(views.take(i + 1).last() == views[i as int]);
            assert(views[i as int] == (key@, value@));
        }
        if str_eq(key, "ssid") {
            if ssid_push_str(&mut ssid, value).is_err() {
                proof {
                    lemma_form_error_sticks(views, i + 1);
                }
                return Err(HandlerError::SsidTooLong);
            }
        } else if str_eq(key, "password") {
            if password_push_str(&mut password, value).is_err() {
                proof {
                    lemma_form_error_sticks(views, i + 1);
                }
                return Err(HandlerError::PasswordTooLong);
            }
        }
        i = i + 1;
    }
    proof {
        assert(views.take(n as int) =~= views);
    }
    Ok((ssid, password))
}

/// What a configuration form asks for.
pub enum ConfigSubmission {
    /// Store these credentials and restart (reply `Restarting`).
    Accepted(WifiConfig),
    /// The name or the password is empty (reply `InvalidInput`).
    Rejected,
}

impl ConfigSubmission {
    /// The reply to the form: `Restarting` once accepted credentials are
    /// stored, `InvalidInput` when rejected.
    pub fn reply(&self) -> (r: Reply)
        ensures
            self is Accepted ==> r == Reply::Restarting,
            self is Rejected ==> r == Reply::InvalidInput,
    {
        match self {
            ConfigSubmission::Accepted(_) => Reply::Restarting,
            ConfigSubmission::Rejected => Reply::InvalidInput,
        }
    }
}

/// Handles a configuration form: `Err(InvalidUtf8)` when the body is not
/// UTF-8; the error of `form_credentials` on its pairs when there is one;
/// `Rejected` when the name or the password it gives is empty; otherwise
/// `Accepted` with that name and password.
pub fn handle_config_request(body: &[u8]) -> (res: Result<ConfigSubmission, HandlerError>)
    ensures
        !valid_utf8(body@) ==> (res matches Err(HandlerError::InvalidUtf8(_))),
        valid_utf8(body@) ==> match form_credentials(form_decode(body@)) {
            Err(e) => res is Err && res->Err_0 == e,
            Ok((s, p)) => if s.len() == 0 || p.len() == 0 {
                res matches Ok(ConfigSubmission::Rejected)
            } else {
                (res matches Ok(ConfigSubmission::Accepted(c)) && c.ssid_view() == s
                    && c.password_view() == p)
            },
        },
{
    let text = match request_text(body) {
        Ok(t) => t,
        Err(e) => return Err(HandlerError::InvalidUtf8(e)),
    };
    let pairs = form_pairs(text.as_bytes());
    let (ssid, password) = match collect_credentials(&pairs) {
        Ok(c) => c,
        Err(e) => return Err(e),
    };
    if ssid_as_str(&ssid).is_empty() || password_as_str(&password).is_empty() {
        return Ok(ConfigSubmission::Rejected);
    }
    Ok(ConfigSubmission::Accepted(WifiConfig { ssid, password }))
}

} // verus!
