//! Blockchain RPC facade: endpoint discovery, the rotating provider pool,
//! and the typed decoding of every query's outcome.
//!
//! The client owns the ordered endpoint list, a round-robin cursor and the
//! shared rate limiter. It performs no exchange itself: the embedding host
//! asks for a token ([`StarknetClient::check`]), takes the next endpoint
//! ([`StarknetClient::next_provider`]), performs the call, and hands the
//! outcome back as an [`RpcEvent`] for the typed decode.

use vstd::prelude::*;

use crate::errors::CoreError;
use crate::rate_limiter::{ApiRateLimiter, CheckOutcome};

verus! {

use vstd::string::{StrSliceExecFns, StringSliceAdditionalSpecFns};

/// Requests-per-second quota every client is built with: a safe default for
/// a typical free-tier endpoint, and global to the client, so total
/// throughput is limited no matter which provider serves the next call.
pub const RPC_QUOTA_PER_SECOND: u32 = 5;

/// Whether a candidate string parses as a URL; a function of the string
/// alone, decided by the `url` crate.
pub uninterp spec fn url_ok(s: Seq<char>) -> bool;

/// Relies on `url::Url::parse`: accepts exactly the strings that parse as
/// absolute URLs.
#[verifier::external_body]
fn parse_url_ok(s: &str) -> (r: bool)
    ensures
        r == url_ok(s@),
{
    url::Url::parse(s).is_ok()
}

/// The endpoint URLs that a prioritized list of resolved configuration
/// sources yields: every value that is present and non-empty, in priority
/// order, duplicates kept.
pub open spec fn resolved_urls(sources: Seq<Option<Seq<char>>>) -> Seq<Seq<char>>
    decreases sources.len(),
{
    if sources.len() == 0 {
        Seq::empty()
    } else {
        resolved_urls(sources.drop_last()) + (match sources.last() {
            Some(u) => if u.len() > 0 {
                seq![u]
            } else {
                Seq::<Seq<char>>::empty()
            },
            None => Seq::<Seq<char>>::empty(),
        })
    }
}

/// The endpoint list a client construction works from: the explicit
/// override alone when one is supplied, otherwise whatever discovery
/// resolves from the named sources.
pub open spec fn candidate_urls(
    rpc_url: Option<Seq<char>>,
    sources: Seq<Option<Seq<char>>>,
) -> Seq<Seq<char>> {
    match rpc_url {
        Some(u) => seq![u],
        None => resolved_urls(sources),
    }
}

/// Every candidate in the list parses as a URL.
pub open spec fn all_urls_ok(urls: Seq<Seq<char>>) -> bool {
    forall|j: int| 0 <= j < urls.len() ==> url_ok(#[trigger] urls[j])
}

/// Resolve the ordered endpoint list from already-read configuration
/// sources (one entry per named source, in priority order, `None` for a
/// source that is unset). Present, non-empty values are kept in order,
/// duplicates included; zero usable values is a configuration error.
pub fn detect_rpc_urls(sources: &Vec<Option<String>>) -> (r: Result<Vec<String>, CoreError>)
    ensures
        r matches Ok(urls) ==> urls.deep_view() == resolved_urls(sources.deep_view())
            && urls.len() > 0,
        r is Err <==> resolved_urls(sources.deep_view()).len() == 0,
        r is Err ==> r == Result::<Vec<String>, CoreError>::Err(CoreError::ConfigurationError),
{
    let ghost all = sources.deep_view();
    let mut urls: Vec<String> = Vec::new();
    let mut i: usize = 0;
    while i < sources.len()
        invariant
            i <= sources.len(),
            all == sources.deep_view(),
            urls.deep_view() == resolved_urls(all.subrange(0, i as int)),
        decreases sources.len() - i,
    {
        let ghost before = urls.deep_view();
        match &sources[i] {
            Some(v) => {
                if !v.as_str().is_empty() {
                    urls.push(v.clone());
                    proof {
                        assert(urls.deep_view() =~= before.push(v@));
                    }
                }
            },
            None => {},
        }
        proof {
            assert(all.subrange(0, i + 1).drop_last() =~= all.subrange(0, i as int));
            assert(all.subrange(0, i + 1).last() == all[i as int]);
            assert(urls.deep_view() =~= resolved_urls(all.subrange(0, i + 1)));
        }
        i = i + 1;
    }
    proof {
        assert(all.subrange(0, sources.len() as int) =~= all);
    }
    if urls.len() == 0 {
        Err(CoreError::ConfigurationError)
    } else {
        Ok(urls)
    }
}

/// Value of one ASCII hexadecimal digit, or `-1` for any other byte.
pub open spec fn hex_digit_val(b: u8) -> int {
    if 0x30 <= b && b <= 0x39 {
        b - 0x30
    } else if 0x61 <= b && b <= 0x66 {
        b - 0x61 + 10
    } else if 0x41 <= b && b <= 0x46 {
        b - 0x41 + 10
    } else {
        -1
    }
}

/// Every byte of the sequence is an ASCII hexadecimal digit.
pub open spec fn all_hex_digits(s: Seq<u8>) -> bool {
    forall|i: int| 0 <= i < s.len() ==> hex_digit_val(#[trigger] s[i]) >= 0
}

/// The number a sequence of hexadecimal digits denotes, most significant
/// digit first. Meaningful only when all bytes are hexadecimal digits.
pub open spec fn hex_value(s: Seq<u8>) -> int
    decreases s.len(),
{
    if s.len() == 0 {
        0
    } else {
        16 * hex_value(s.drop_last()) + hex_digit_val(s.last())
    }
}

/// The `u128` a `0x`-prefixed hexadecimal byte string denotes: defined
/// exactly when the string has the prefix, at least one digit, only
/// hexadecimal digits, and a value within `u128` range.
pub open spec fn hex_u128_of(bytes: Seq<u8>) -> Option<u128> {
    if bytes.len() >= 3 && bytes[0] == 0x30u8 && bytes[1] == 0x78u8 && all_hex_digits(
        bytes.skip(2),
    ) && hex_value(bytes.skip(2)) <= u128::MAX as int {
        Some(hex_value(bytes.skip(2)) as u128)
    } else {
        None
    }
}

/// A sequence of hexadecimal digits denotes a nonnegative number.
proof fn lemma_hex_value_nonneg(digits: Seq<u8>)
    requires
        all_hex_digits(digits),
    ensures
        hex_value(digits) >= 0,
    decreases digits.len(),
{
    if digits.len() > 0 {
        assert(all_hex_digits(digits.drop_last())) by {
            assert(forall|i: int|
                0 <= i < digits.len() - 1 ==> digits.drop_last()[i] == #[trigger] digits[i]);
        }
        lemma_hex_value_nonneg(digits.drop_last());
    }
}

/// Dropping trailing digits never increases the denoted number.
proof fn lemma_hex_value_prefix(digits: Seq<u8>, j: int)
    requires
        all_hex_digits(digits),
        0 <= j <= digits.len(),
    ensures
        hex_value(digits.subrange(0, j)) <= hex_value(digits),
    decreases digits.len() - j,
{
    if j == digits.len() {
        assert(digits.subrange(0, j) =~= digits);
    } else {
        lemma_hex_value_prefix(digits, j + 1);
        let longer = digits.subrange(0, j + 1);
        assert(longer.drop_last() =~= digits.subrange(0, j));
        assert(all_hex_digits(digits.subrange(0, j))) by {
            assert(forall|i: int|
                0 <= i < j ==> digits.subrange(0, j)[i] == #[trigger] digits[i]);
        }
        lemma_hex_value_nonneg(digits.subrange(0, j));
        assert(hex_value(longer) == 16 * hex_value(digits.subrange(0, j)) + hex_digit_val(
            digits[j],
        ));
    }
}

/// Classify one byte as a hexadecimal digit, returning its value.
fn hex_digit(b: u8) -> (r: Option<u8>)
    ensures
        r matches Some(v) ==> hex_digit_val(b) == v as int,
        r is None <==> hex_digit_val(b) < 0,
{
    if 0x30 <= b && b <= 0x39 {
        Some(b - 0x30)
    } else if 0x61 <= b && b <= 0x66 {
        Some(b - 0x61 + 10)
    } else if 0x41 <= b && b <= 0x46 {
        Some(b - 0x41 + 10)
    } else {
        None
    }
}

/// Parse a `0x`-prefixed hexadecimal string — the rendering of a field
/// element in a JSON-RPC result — into the `u128` it denotes, refusing a
/// missing prefix, a non-digit, an empty digit run, or a value out of
/// range.
pub fn parse_hex_u128(s: &str) -> (r: Option<u128>)
    ensures
        r == hex_u128_of(s.spec_bytes()),
{
    let b: Vec<u8> = s.as_bytes_vec();
    if b.len() < 3 || b[0] != 0x30u8 || b[1] != 0x78u8 {
        return None;
    }
    let ghost digits = s.spec_bytes().skip(2);
    let mut acc: u128 = 0;
    let mut i: usize = 2;
    while i < b.len()
        invariant
            b@ == s.spec_bytes(),
            b@.len() >= 3,
            b@[0] == 0x30u8,
            b@[1] == 0x78u8,
            digits == s.spec_bytes().skip(2),
            2 <= i <= b@.len(),
            all_hex_digits(digits.subrange(0, i - 2)),
            acc as int == hex_value(digits.subrange(0, i - 2)),
        decreases b@.len() - i,
    {
        proof {
            assert(digits[i - 2] == b@[i as int]);
        }
        let d = match hex_digit(b[i]) {
            Some(d) => d,
            None => {
                proof {
                    if all_hex_digits(digits) {
                        assert(hex_digit_val(digits[i - 2]) >= 0);
                    }
                }
                return None;
            },
        };
        if acc > u128::MAX / 16 {
            proof {
                if all_hex_digits(digits) {
                    let longer = digits.subrange(0, i - 1);
                    assert(longer.drop_last() =~= digits.subrange(0, i - 2));
                    assert(longer.last() == digits[i - 2]);
                    assert(hex_value(longer) == 16 * (acc as int) + hex_digit_val(digits[i - 2]));
                    assert(all_hex_digits(longer)) by {
                        assert(forall|t: int|
                            0 <= t < longer.len() ==> longer[t] == #[trigger] digits[t]);
                    }
                    lemma_hex_value_nonneg(longer);
                    lemma_hex_value_prefix(digits, i - 1);
                }
            }
            return None;
        }
        acc = acc * 16 + (d as u128);
        proof {
            let now = digits.subrange(0, i - 1);
            assert(now.drop_last() =~= digits.subrange(0, i - 2));
            assert(now.last() == digits[i - 2]);
        }
        i = i + 1;
    }
    proof {
        assert(digits.subrange(0, i - 2) =~= digits);
    }
    Some(acc)
}

/// What one JSON-RPC exchange produced, as the embedding host hands it
/// back in plain values: the connection failed or timed out; the endpoint
/// answered with the carried non-success status; or the call succeeded and
/// its result field held a number, one field element rendered as a
/// `0x`-prefixed hex string, or a pair of field elements.
#[derive(Debug, Clone, PartialEq, Eq)]
pub enum RpcEvent {
    Failed,
    Status(u16),
    Number(u64),
    Felt(String),
    FeltPair(String, String),
}

/// The typed outcome a number-carrying RPC event decodes to.
pub open spec fn number_event_value(e: RpcEvent) -> Result<u64, CoreError> {
    match e {
        RpcEvent::Number(n) => Ok(n),
        RpcEvent::Failed => Err(CoreError::TransportError),
        RpcEvent::Status(s) => Err(CoreError::ProtocolError { status: s }),
        RpcEvent::Felt(_) => Err(CoreError::DecodeError),
        RpcEvent::FeltPair(_, _) => Err(CoreError::DecodeError),
    }
}

/// The typed outcome a felt-carrying RPC event decodes to: transport and
/// protocol failures pass through, a payload of any other shape is a
/// decode error, and a felt payload denotes its hexadecimal value when
/// that value is in `u128` range.
pub open spec fn felt_event_value(e: RpcEvent) -> Result<u128, CoreError> {
    match e {
        RpcEvent::Felt(f) => match hex_u128_of(vstd::utf8::encode_utf8(f@)) {
            Some(v) => Ok(v),
            None => Err(CoreError::DecodeError),
        },
        RpcEvent::Failed => Err(CoreError::TransportError),
        RpcEvent::Status(s) => Err(CoreError::ProtocolError { status: s }),
        RpcEvent::Number(_) => Err(CoreError::DecodeError),
        RpcEvent::FeltPair(_, _) => Err(CoreError::DecodeError),
    }
}

/// The typed outcome a nonce query decodes to: the felt value when it fits
/// the 64-bit nonce range, a decode error when it does not.
pub open spec fn nonce_event_value(e: RpcEvent) -> Result<u64, CoreError> {
    match felt_event_value(e) {
        Ok(v) => if v <= u64::MAX as u128 {
            Ok(v as u64)
        } else {
            Err(CoreError::DecodeError)
        },
        Err(err) => Err(err),
    }
}

/// The typed outcome a crew-status query decodes to: a pair of felts, the
/// first read as the busy flag (any non-zero value is busy), the second as
/// the crew class, which must fit a class identifier.
pub open spec fn crew_status_value(e: RpcEvent) -> Result<(bool, u8), CoreError> {
    match e {
        RpcEvent::FeltPair(busy, class) => {
            match (
                hex_u128_of(vstd::utf8::encode_utf8(busy@)),
                hex_u128_of(vstd::utf8::encode_utf8(class@)),
            ) {
                (Some(b), Some(c)) => if c <= u8::MAX as u128 {
                    Ok((b != 0, c as u8))
                } else {
                    Err(CoreError::DecodeError)
                },
                _ => Err(CoreError::DecodeError),
            }
        },
        RpcEvent::Failed => Err(CoreError::TransportError),
        RpcEvent::Status(s) => Err(CoreError::ProtocolError { status: s }),
        RpcEvent::Number(_) => Err(CoreError::DecodeError),
        RpcEvent::Felt(_) => Err(CoreError::DecodeError),
    }
}

/// Every sub-result of a batch decodes to a value.
pub open spec fn batch_events_ok(events: Seq<RpcEvent>) -> bool {
    forall|j: int| 0 <= j < events.len() ==> felt_event_value(#[trigger] events[j]) is Ok
}

/// Shared decode of one felt-carrying event.
fn decode_felt_event(event: &RpcEvent) -> (r: Result<u128, CoreError>)
    ensures
        r == felt_event_value(*event),
{
    match event {
        RpcEvent::Felt(f) => match parse_hex_u128(f.as_str()) {
            Some(v) => Ok(v),
            None => Err(CoreError::DecodeError),
        },
        RpcEvent::Failed => Err(CoreError::TransportError),
        RpcEvent::Status(s) => Err(CoreError::ProtocolError { status: *s }),
        RpcEvent::Number(_) => Err(CoreError::DecodeError),
        RpcEvent::FeltPair(_, _) => Err(CoreError::DecodeError),
    }
}

/// One per-asteroid entry of a batch query: the asteroid id as the caller
/// queried it, and its on-chain ownership/state word.
#[derive(Debug, Clone, Copy, PartialEq, Eq, Structural)]
pub struct AsteroidHolding {
    pub asteroid_id: u64,
    pub state: u128,
}

/// The combined result of a batch query: the account balance together with
/// one entry per queried asteroid id, in the caller's order.
#[derive(Debug, Clone, PartialEq, Eq)]
pub struct BatchResult {
    pub balance: u128,
    pub entries: Vec<AsteroidHolding>,
}

/// Client for blockchain JSON-RPC queries: an ordered, non-empty provider
/// pool, a rotation cursor, and the shared admission gate.
pub struct StarknetClient {
    providers: Vec<String>,
    current_index: usize,
    limiter: ApiRateLimiter,
}

impl StarknetClient {
    /// The pool's endpoint URLs, in discovery order.
    pub closed spec fn providers(&self) -> Seq<Seq<char>> {
        self.providers.deep_view()
    }

    /// The rotation cursor: index of the endpoint the next call will use.
    pub closed spec fn cursor(&self) -> usize {
        self.current_index
    }

    /// The shared admission gate.
    pub closed spec fn limiter(&self) -> ApiRateLimiter {
        self.limiter
    }

    /// A usable client: at least one endpoint, a cursor inside the pool,
    /// and a well-formed limiter at the default quota.
    pub open spec fn wf(&self) -> bool {
        &&& self.providers().len() >= 1
        &&& self.cursor() < self.providers().len()
        &&& self.limiter().wf()
        &&& self.limiter().quota() == RPC_QUOTA_PER_SECOND
    }

    /// Build a client from an optional explicit endpoint override and the
    /// resolved named configuration sources.
    ///
    /// With an override, the pool holds exactly that endpoint and no source
    /// is consulted; otherwise the pool is the discovered list. Zero
    /// usable endpoints, or any candidate that does not parse as a URL, is
    /// a configuration error and constructs nothing.
    pub fn new(rpc_url: Option<&str>, sources: &Vec<Option<String>>) -> (r: Result<
        StarknetClient,
        CoreError,
    >)
        ensures
            ({
                let cands = candidate_urls(rpc_url.deep_view(), sources.deep_view());
                &&& (r is Ok <==> cands.len() > 0 && all_urls_ok(cands))
                &&& (r matches Ok(c) ==> c.wf() && c.providers() == cands && c.cursor() == 0
                    && c.limiter().quota() == RPC_QUOTA_PER_SECOND && c.limiter().admitted() == 0)
                &&& (r is Err ==> r == Result::<StarknetClient, CoreError>::Err(
                    CoreError::ConfigurationError,
                ))
            }),
    {
        let ghost cands = candidate_urls(rpc_url.deep_view(), sources.deep_view());
        let mut urls: Vec<String> = Vec::new();
        match rpc_url {
            Some(u) => {
                urls.push(u.to_owned());
                proof {
                    assert(urls.deep_view() =~= cands);
                }
            },
            None => {
                match detect_rpc_urls(sources) {
                    Ok(found) => {
                        urls = found;
                    },
                    Err(e) => {
                        return Err(e);
                    },
                }
            },
        }
        let mut i: usize = 0;
        while i < urls.len()
            invariant
                i <= urls.len(),
                cands == candidate_urls(rpc_url.deep_view(), sources.deep_view()),
                urls.deep_view() == cands,
                urls.len() > 0,
                forall|j: int| 0 <= j < i ==> url_ok(#[trigger] cands[j]),
            decreases urls.len() - i,
        {
            if !parse_url_ok(urls[i].as_str()) {
                proof {
                    assert(!url_ok(cands[i as int]));
                    if all_urls_ok(cands) {
                        assert(url_ok(cands[i as int]));
                    }
                }
                return Err(CoreError::ConfigurationError);
            }
            i = i + 1;
        }
        let limiter = match ApiRateLimiter::new(RPC_QUOTA_PER_SECOND) {
            Ok(l) => l,
            // Unreachable: the default quota is positive.
            Err(_) => {
                return Err(CoreError::ConfigurationError);
            },
        };
        Ok(StarknetClient { providers: urls, current_index: 0, limiter })
    }

    /// Ask the shared limiter for a token at instant `now_ms`; the pool is
    /// untouched either way. See [`ApiRateLimiter::check`].
    pub fn check(&mut self, now_ms: u64) -> (r: CheckOutcome)
        requires
            old(self).wf(),
            now_ms <= u64::MAX - crate::rate_limiter::WINDOW_MS,
        ensures
            final(self).wf(),
            final(self).providers() == old(self).providers(),
            final(self).cursor() == old(self).cursor(),
            r == CheckOutcome::Admitted <==> (old(self).limiter().admitted() == 0
                || now_ms >= old(self).limiter().window_start()
                    + crate::rate_limiter::WINDOW_MS
                || old(self).limiter().admitted() < old(self).limiter().quota()),
            r == CheckOutcome::Admitted ==> ApiRateLimiter::admission(
                old(self).limiter(),
                now_ms,
                final(self).limiter(),
            ),
            r is RetryAtMs ==> final(self).limiter() == old(self).limiter() && r
                == CheckOutcome::RetryAtMs(
                (old(self).limiter().window_start() + crate::rate_limiter::WINDOW_MS) as u64,
            ),
    {
        self.limiter.check(now_ms)
    }

    /// One rotation step: `pre` serves the endpoint under its cursor and
    /// advances the cursor by one, modulo the pool length; nothing else
    /// changes.
    pub open spec fn rotation(pre: StarknetClient, served: Seq<char>, post: StarknetClient) -> bool {
        &&& pre.wf() && post.wf()
        &&& post.providers() == pre.providers()
        &&& post.limiter() == pre.limiter()
        &&& served == pre.providers()[pre.cursor() as int]
        &&& post.cursor() == (pre.cursor() + 1) % (pre.providers().len() as int)
    }

    /// Hand out the endpoint the cursor points at and advance the cursor by
    /// one, modulo the pool length — blind round robin, no health signal,
    /// no I/O, and no reordering ever.
    pub fn next_provider(&mut self) -> (r: String)
        requires
            old(self).wf(),
        ensures
            Self::rotation(*old(self), r@, *final(self)),
    {
        let r = self.providers[self.current_index].clone();
        let n = self.providers.len();
        self.current_index = (self.current_index + 1) % n;
        r
    }

    /// Decode the outcome of a block-number query into the height, or the
    /// error the exchange deserves: transport and protocol failures pass
    /// through unmodified, and a payload of any other shape is a decode
    /// error.
    pub fn get_block_number(&self, event: &RpcEvent) -> (r: Result<u64, CoreError>)
        ensures
            r == number_event_value(*event),
    {
        match event {
            RpcEvent::Number(n) => Ok(*n),
            RpcEvent::Failed => Err(CoreError::TransportError),
            RpcEvent::Status(s) => Err(CoreError::ProtocolError { status: *s }),
            RpcEvent::Felt(_) => Err(CoreError::DecodeError),
            RpcEvent::FeltPair(_, _) => Err(CoreError::DecodeError),
        }
    }

    /// Decode the outcome of a native-token balance query into the balance
    /// (an unsigned 128-bit quantity parsed from the result's hex felt), or
    /// the error the exchange deserves.
    pub fn get_eth_balance(&self, event: &RpcEvent) -> (r: Result<u128, CoreError>)
        ensures
            r == felt_event_value(*event),
    {
        decode_felt_event(event)
    }

    /// Decode the outcome of a next-nonce query into the nonce, or the
    /// error the exchange deserves; a nonce beyond the 64-bit range is a
    /// decode error.
    pub fn get_nonce(&self, event: &RpcEvent) -> (r: Result<u64, CoreError>)
        ensures
            r == nonce_event_value(*event),
    {
        match decode_felt_event(event) {
            Ok(v) => if v <= u64::MAX as u128 {
                Ok(v as u64)
            } else {
                Err(CoreError::DecodeError)
            },
            Err(e) => Err(e),
        }
    }

    /// Decode the outcome of a crew-status query into the busy flag and the
    /// crew class, or the error the exchange deserves: the payload is a
    /// pair of felts, any non-zero first felt means busy, and the second
    /// must fit a class identifier.
    pub fn get_crew_status(&self, event: &RpcEvent) -> (r: Result<(bool, u8), CoreError>)
        ensures
            r == crew_status_value(*event),
    {
        match event {
            RpcEvent::FeltPair(busy, class) => {
                let busy_v = match parse_hex_u128(busy.as_str()) {
                    Some(v) => v,
                    None => {
                        return Err(CoreError::DecodeError);
                    },
                };
                let class_v = match parse_hex_u128(class.as_str()) {
                    Some(v) => v,
                    None => {
                        return Err(CoreError::DecodeError);
                    },
                };
                if class_v <= u8::MAX as u128 {
                    Ok((busy_v != 0, class_v as u8))
                } else {
                    Err(CoreError::DecodeError)
                }
            },
            RpcEvent::Failed => Err(CoreError::TransportError),
            RpcEvent::Status(s) => Err(CoreError::ProtocolError { status: *s }),
            RpcEvent::Number(_) => Err(CoreError::DecodeError),
            RpcEvent::Felt(_) => Err(CoreError::DecodeError),
        }
    }

    /// Join the sub-results of a batch query — the account balance and one
    /// ownership/state read per asteroid id, fanned out by the host in any
    /// order — into one combined result whose entries follow the caller's
    /// id order exactly. Any sub-failure fails the whole batch: no partial
    /// result is ever returned.
    pub fn batch_query(
        &self,
        _account_address: &str,
        asteroids: &Vec<u64>,
        balance_event: &RpcEvent,
        asteroid_events: &Vec<RpcEvent>,
    ) -> (r: Result<BatchResult, CoreError>)
        ensures
            r is Ok <==> asteroid_events@.len() == asteroids@.len() && felt_event_value(
                *balance_event,
            ) is Ok && batch_events_ok(asteroid_events@),
            r matches Ok(b) ==> ({
                &&& Result::<u128, CoreError>::Ok(b.balance) == felt_event_value(*balance_event)
                &&& b.entries@.len() == asteroids@.len()
                &&& forall|j: int|
                    0 <= j < asteroids@.len() ==> (#[trigger] b.entries@[j]).asteroid_id
                        == asteroids@[j] && Result::<u128, CoreError>::Ok(b.entries@[j].state)
                        == felt_event_value(asteroid_events@[j])
            }),
            asteroid_events@.len() != asteroids@.len() ==> r == Result::<
                BatchResult,
                CoreError,
            >::Err(CoreError::DecodeError),
            r matches Err(e) ==> (e == CoreError::DecodeError && asteroid_events@.len()
                != asteroids@.len()) || felt_event_value(*balance_event) == Result::<
                u128,
                CoreError,
            >::Err(e) || exists|j: int|
                0 <= j < asteroid_events@.len() && felt_event_value(#[trigger] asteroid_events@[j])
                    == Result::<u128, CoreError>::Err(e),
    {
        if asteroid_events.len() != asteroids.len() {
            return Err(CoreError::DecodeError);
        }
        let balance = match decode_felt_event(balance_event) {
            Ok(v) => v,
            Err(e) => {
                return Err(e);
            },
        };
        let mut entries: Vec<AsteroidHolding> = Vec::new();
        let mut j: usize = 0;
        while j < asteroids.len()
            invariant
                asteroid_events@.len() == asteroids@.len(),
                Result::<u128, CoreError>::Ok(balance) == felt_event_value(*balance_event),
                j <= asteroids@.len(),
                entries@.len() == j,
                forall|t: int|
                    0 <= t < j ==> (#[trigger] entries@[t]).asteroid_id == asteroids@[t]
                        && Result::<u128, CoreError>::Ok(entries@[t].state) == felt_event_value(
                        asteroid_events@[t],
                    ),
            decreases asteroids@.len() - j,
        {
            let state = match decode_felt_event(&asteroid_events[j]) {
                Ok(v) => v,
                Err(e) => {
                    return Err(e);
                },
            };
            entries.push(AsteroidHolding { asteroid_id: asteroids[j], state });
            j = j + 1;
        }
        proof {
            assert forall|t: int|
                0 <= t < asteroid_events@.len() implies felt_event_value(
                #[trigger] asteroid_events@[t],
            ) is Ok by {
                assert(Result::<u128, CoreError>::Ok(entries@[t].state) == felt_event_value(
                    asteroid_events@[t],
                ));
            }
        }
        Ok(BatchResult { balance, entries })
    }

    /// A run of rotation steps: step `j` turns `states[j]` into
    /// `states[j + 1]`, serving `served[j]`.
    pub open spec fn rotation_trace(states: Seq<StarknetClient>, served: Seq<Seq<char>>) -> bool {
        &&& states.len() == served.len() + 1
        &&& forall|j: int|
            0 <= j < served.len() ==> Self::rotation(states[j], #[trigger] served[j], states[j + 1])
    }

    /// Along a rotation run from a fresh cursor, step `j` serves the
    /// endpoint at index `j mod k` of a pool of size `k`.
    proof fn lemma_rotation_trace_cursor(states: Seq<StarknetClient>, served: Seq<Seq<char>>, n: int)
        requires
            Self::rotation_trace(states, served),
            states[0].wf(),
            states[0].cursor() == 0,
            0 <= n <= served.len(),
        ensures
            states[n].wf(),
            states[n].providers() == states[0].providers(),
            states[n].cursor() == n % (states[0].providers().len() as int),
        decreases n,
    {
        let k = states[0].providers().len() as int;
        if n == 0 {
            vstd::arithmetic::div_mod::lemma_small_mod(0, k as nat);
        } else {
            Self::lemma_rotation_trace_cursor(states, served, n - 1);
            let c = states[n - 1].cursor() as int;
            assert(Self::rotation(states[n - 1], served[n - 1], states[n]));
            vstd::arithmetic::div_mod::lemma_mod_bound(n - 1, k);
            vstd::arithmetic::div_mod::lemma_fundamental_div_mod(n - 1, k);
            let d = (n - 1) / k;
            if c + 1 < k {
                assert(n == d * k + (c + 1)) by {
                    vstd::arithmetic::mul::lemma_mul_is_commutative(k, d);
                }
                vstd::arithmetic::div_mod::lemma_fundamental_div_mod_converse(n, k, d, c + 1);
                vstd::arithmetic::div_mod::lemma_small_mod((c + 1) as nat, k as nat);
            } else {
                assert(c + 1 == k);
                vstd::arithmetic::div_mod::lemma_mod_self_0(k);
                assert(n == (d + 1) * k + 0) by {
                    vstd::arithmetic::mul::lemma_mul_is_distributive_add(k, d, 1);
                    vstd::arithmetic::mul::lemma_mul_is_commutative(k, d + 1);
                    vstd::arithmetic::mul::lemma_mul_is_commutative(k, d);
                }
                vstd::arithmetic::div_mod::lemma_fundamental_div_mod_converse(n, k, d + 1, 0);
            }
        }
    }

    /// Round-robin law: from a fresh cursor over a pool of `k` endpoints,
    /// `k` consecutive calls serve `e0 … e(k-1)` — each endpoint exactly
    /// once, in discovery order — and call `k + 1` serves `e0` again.
    pub proof fn lemma_round_robin(states: Seq<StarknetClient>, served: Seq<Seq<char>>)
        requires
            Self::rotation_trace(states, served),
            states[0].wf(),
            states[0].cursor() == 0,
            served.len() == states[0].providers().len() + 1,
        ensures
            forall|j: int|
                0 <= j < states[0].providers().len() ==> #[trigger] served[j]
                    == states[0].providers()[j],
            served[states[0].providers().len() as int] == states[0].providers()[0],
    {
        let k = states[0].providers().len() as int;
        assert forall|j: int| 0 <= j < k implies #[trigger] served[j]
            == states[0].providers()[j] by {
            Self::lemma_rotation_trace_cursor(states, served, j);
            assert(Self::rotation(states[j], served[j], states[j + 1]));
            vstd::arithmetic::div_mod::lemma_small_mod(j as nat, k as nat);
        }
        Self::lemma_rotation_trace_cursor(states, served, k);
        assert(Self::rotation(states[k], served[k], states[k + 1]));
        assert(k % k == 0) by {
            vstd::arithmetic::div_mod::lemma_mod_self_0(k);
        }
    }
}

} // verus!
