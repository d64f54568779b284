//! Errors and settings of sources, and the decisions of the Kafka source.
use vstd::prelude::*;
use vstd::string::StringExecFns;
use crate::error::FlowError;

verus! {

/// Errors that can occur when working with sources.
#[derive(Debug)]
pub enum SourceError {
    /// An IO error occurred.
    Io(String),
    /// A custom error occurred.
    Custom(String),
}

impl Clone for SourceError {
    /// A copy equal to the original: same variant, same text.
    fn clone(&self) -> (r: Self)
        ensures
            r == *self,
    {
        match self {
            SourceError::Io(m) => SourceError::Io(m.clone()),
            SourceError::Custom(m) => SourceError::Custom(m.clone()),
        }
    }
}

impl SourceError {
    /// The human-readable text of the error.
    pub open spec fn message(&self) -> Seq<char> {
        match self {
            SourceError::Io(m) => "IO error: "@ + m@,
            SourceError::Custom(m) => m@,
        }
    }

    /// Renders the error as text.
    pub fn to_string(&self) -> (text: String)
        ensures
            text@ == self.message(),
    {
        match self {
            SourceError::Io(m) => String::from_str("IO error: ").concat(m.as_str()),
            SourceError::Custom(m) => String::from_str(m.as_str()),
        }
    }

    /// A flow error becomes a custom source error carrying its text.
    pub fn from_flow_error(err: FlowError) -> (e: SourceError)
        ensures
            e matches SourceError::Custom(m) && m@ == err.message(),
    {
        SourceError::Custom(err.to_string())
    }
}

/// Configuration for the Kafka source.
#[derive(Debug, Clone)]
pub struct KafkaConfig {
    /// Bootstrap servers (comma-separated list).
    pub bootstrap_servers: String,
    /// Topic to consume from.
    pub topic: String,
    /// Consumer group ID.
    pub group_id: String,
    /// Auto offset reset (earliest/latest).
    pub auto_offset_reset: String,
    /// Session timeout, in milliseconds.
    pub session_timeout_ms: u64,
}

impl Default for KafkaConfig {
    fn default() -> (c: KafkaConfig)
        ensures
            c.bootstrap_servers@ == "localhost:9092"@,
            c.topic@ == "default-topic"@,
            c.group_id@ == "cortex-consumer"@,
            c.auto_offset_reset@ == "earliest"@,
            c.session_timeout_ms == 6000,
    {
        KafkaConfig {
            bootstrap_servers: String::from_str("localhost:9092"),
            topic: String::from_str("default-topic"),
            group_id: String::from_str("cortex-consumer"),
            auto_offset_reset: String::from_str("earliest"),
            session_timeout_ms: 6000,
        }
    }
}

/// The character of a decimal digit.
pub open spec fn digit_char(d: nat) -> char {
    if d == 0 { '0' }
    else if d == 1 { '1' }
    else if d == 2 { '2' }
    else if d == 3 { '3' }
    else if d == 4 { '4' }
    else if d == 5 { '5' }
    else if d == 6 { '6' }
    else if d == 7 { '7' }
    else if d == 8 { '8' }
    else { '9' }
}

/// The decimal notation of `n`, without leading zeros.
pub open spec fn decimal(n: nat) -> Seq<char>
    decreases n,
{
    if n < 10 {
        seq![digit_char(n)]
    } else {
        decimal(n / 10).push(digit_char(n % 10))
    }
}

fn digit_str(d: u64) -> (s: &'static str)
    requires
        d < 10,
    ensures
        s@ == seq![digit_char(d as nat)],
{
    proof {
        reveal_strlit("0");
        reveal_strlit("1");
        reveal_strlit("2");
        reveal_strlit("3");
        reveal_strlit("4");
        reveal_strlit("5");
        reveal_strlit("6");
        reveal_strlit("7");
        reveal_strlit("8");
        reveal_strlit("9");
    }
    if d == 0 { "0" }
    else if d == 1 { "1" }
    else if d == 2 { "2" }
    else if d == 3 { "3" }
    else if d == 4 { "4" }
    else if d == 5 { "5" }
    else if d == 6 { "6" }
    else if d == 7 { "7" }
    else if d == 8 { "8" }
    else { "9" }
}

/// Writes `n` in decimal, as `u64::to_string` does.
pub fn decimal_string(n: u64) -> (s: String)
    ensures
        s@ == decimal(n as nat),
    decreases n,
{
    if n < 10 {
        String::from_str(digit_str(n))
    } else {
        let head = decimal_string(n / 10);
        let s = head.concat(digit_str(n % 10));
        proof {
            assert(s@ =~= decimal((n / 10) as nat).push(digit_char((n % 10) as nat)));
        }
        s
    }
}

/// The consumer settings the Kafka source is created with, as key and value.
pub open spec fn consumer_settings_view(c: KafkaConfig) -> Seq<(Seq<char>, Seq<char>)> {
    seq![
        ("group.id"@, c.group_id@),
        ("bootstrap.servers"@, c.bootstrap_servers@),
        ("enable.auto.commit"@, "true"@),
        ("auto.offset.reset"@, c.auto_offset_reset@),
        ("session.timeout.ms"@, decimal(c.session_timeout_ms as nat)),
    ]
}

/// The consumer settings for `config`: its group, servers and offset reset,
/// automatic commits, and the session timeout in decimal.
pub fn consumer_settings(config: &KafkaConfig) -> (settings: Vec<(String, String)>)
    ensures
        settings@.len() == 5,
        forall|i: int| 0 <= i < 5 ==> (#[trigger] settings@[i]).0@ == consumer_settings_view(*config)[i].0 && settings@[i].1@ == consumer_settings_view(*config)[i].1,
        settings@[0].0@ == "group.id"@ && settings@[0].1@ == config.group_id@,
        settings@[1].0@ == "bootstrap.servers"@ && settings@[1].1@ == config.bootstrap_servers@,
        settings@[2].0@ == "enable.auto.commit"@ && settings@[2].1@ == "true"@,
        settings@[3].0@ == "auto.offset.reset"@ && settings@[3].1@ == config.auto_offset_reset@,
        settings@[4].0@ == "session.timeout.ms"@ && settings@[4].1@ == decimal(config.session_timeout_ms as nat),
{
    let mut settings: Vec<(String, String)> = Vec::new();
    settings.push((String::from_str("group.id"), config.group_id.clone()));
    settings.push((String::from_str("bootstrap.servers"), config.bootstrap_servers.clone()));
    settings.push((String::from_str("enable.auto.commit"), String::from_str("true")));
    settings.push((String::from_str("auto.offset.reset"), config.auto_offset_reset.clone()));
    settings.push((String::from_str("session.timeout.ms"), decimal_string(config.session_timeout_ms)));
    settings
}

/// Law: each consumer setting names its key once, and a key that stands
/// for a config field carries that field verbatim: the whole bootstrap
/// server list, the group and the offset reset exactly as configured, with
/// automatic commits on and the session timeout written in decimal.
pub proof fn law_consumer_settings_carry_config(c: KafkaConfig)
    ensures
        ({
            let s = consumer_settings_view(c);
            &&& forall|i: int, j: int| 0 <= i < s.len() && 0 <= j < s.len() && i != j ==> (#[trigger] s[i]).0 != (#[trigger] s[j]).0
            &&& forall|i: int| 0 <= i < s.len() && (#[trigger] s[i]).0 == "bootstrap.servers"@ ==> s[i].1 == c.bootstrap_servers@
            &&& forall|i: int| 0 <= i < s.len() && (#[trigger] s[i]).0 == "group.id"@ ==> s[i].1 == c.group_id@
            &&& forall|i: int| 0 <= i < s.len() && (#[trigger] s[i]).0 == "auto.offset.reset"@ ==> s[i].1 == c.auto_offset_reset@
            &&& forall|i: int| 0 <= i < s.len() && (#[trigger] s[i]).0 == "enable.auto.commit"@ ==> s[i].1 == "true"@
            &&& forall|i: int| 0 <= i < s.len() && (#[trigger] s[i]).0 == "session.timeout.ms"@ ==> s[i].1 == decimal(c.session_timeout_ms as nat)
            &&& exists|i: int| 0 <= i < s.len() && #[trigger] s[i] == ("bootstrap.servers"@, c.bootstrap_servers@)
        }),
{
    reveal_strlit("group.id");
    reveal_strlit("bootstrap.servers");
    reveal_strlit("enable.auto.commit");
    reveal_strlit("auto.offset.reset");
    reveal_strlit("session.timeout.ms");
    let s = consumer_settings_view(c);
    // The keys start with different letters.
    let first = seq!['g', 'b', 'e', 'a', 's'];
    assert forall|i: int| 0 <= i < s.len() implies (#[trigger] s[i]).0.len() > 0 && s[i].0[0] == first[i] by {
        if i == 0 {
            assert(s[0].0 == "group.id"@);
        } else if i == 1 {
            assert(s[1].0 == "bootstrap.servers"@);
        } else if i == 2 {
            assert(s[2].0 == "enable.auto.commit"@);
        } else if i == 3 {
            assert(s[3].0 == "auto.offset.reset"@);
        } else {
            assert(s[4].0 == "session.timeout.ms"@);
        }
    }
    assert forall|i: int, j: int| 0 <= i < s.len() && 0 <= j < s.len() && i != j implies (#[trigger] s[i]).0 != (#[trigger] s[j]).0 by {
        assert(s[i].0[0] == first[i]);
        assert(s[j].0[0] == first[j]);
    }
    assert(s[1] == ("bootstrap.servers"@, c.bootstrap_servers@));
}

/// What the Kafka consumer gave the source.
pub enum Received<T> {
    /// A message whose payload was converted to an item, or the text of the
    /// conversion error.
    Payload(Result<T, String>),
    /// A message without payload.
    NoPayload,
    /// The consumer failed, with this text.
    Failed(String),
}

/// What the Kafka source sends down its channel for what the consumer gave:
/// the item, a custom error with the text of a failure, or nothing for a
/// message without payload.
pub fn forward<T>(received: Received<T>) -> (sent: Option<Result<T, SourceError>>)
    ensures
        match received {
            Received::Payload(Ok(item)) => sent == Some(Ok::<T, SourceError>(item)),
            Received::Payload(Err(m)) => sent matches Some(Err(SourceError::Custom(t))) && t == m,
            Received::NoPayload => sent is None,
            Received::Failed(m) => sent matches Some(Err(SourceError::Custom(t))) && t == m,
        },
{
    match received {
        Received::Payload(Ok(item)) => Some(Ok(item)),
        Received::Payload(Err(m)) => Some(Err(SourceError::Custom(m))),
        Received::NoPayload => None,
        Received::Failed(m) => Some(Err(SourceError::Custom(m))),
    }
}

/// The Kafka source commits its consumer offsets on successful feedback only.
pub fn commits_offsets<D, E>(feedback: &Result<D, E>) -> (commit: bool)
    ensures
        commit == feedback is Ok,
{
    feedback.is_ok()
}

} // verus!
