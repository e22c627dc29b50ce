//! Economy REST API facade: asteroid lookup, the market-price snapshot
//! with its deliberate fallback degradation, and crew metadata.
//!
//! The client owns the base URL and the shared rate limiter, and decodes
//! outcomes; the embedding host performs the HTTP exchange and hands the
//! outcome back as a [`FetchOutcome`] of plain values.

use vstd::prelude::*;

use crate::errors::CoreError;
use crate::rate_limiter::{ApiRateLimiter, CheckOutcome};

verus! {

use vstd::string::{StrSliceExecFns, StringExecFns};

/// Requests-per-second quota every client is built with — the upstream's
/// limits are strict, so the default is conservative.
pub const INFLUENCE_QUOTA_PER_SECOND: u32 = 2;

/// Base URL used when the resolved configuration supplies none.
pub open spec fn spec_default_base_url() -> Seq<char> {
    "https://api.influenceth.io"@
}

/// What one REST exchange produced, as the embedding host hands it back:
/// the connection failed or timed out, or the endpoint answered with the
/// carried status and body.
#[derive(Debug, Clone, PartialEq, Eq)]
pub enum FetchOutcome {
    Failed,
    Response { status: u16, body: String },
}

/// A status in the success range.
pub open spec fn is_success_status(status: u16) -> bool {
    200 <= status < 300
}

/// One asteroid record: identifier, name, and surface area.
#[derive(Debug, Clone, PartialEq, Eq)]
pub struct Asteroid {
    pub id: u64,
    pub name: String,
    pub area: u64,
}

/// The asteroid record fields — id, name, area — that a response body
/// parses to; a function of the body text alone, decided by serde_json.
pub uninterp spec fn asteroid_fields_of(body: Seq<char>) -> Option<(u64, Seq<char>, u64)>;

/// Relies on `serde_json::from_str` and field access on
/// `serde_json::Value`: parses the body as a JSON object and moves its
/// `id`, `name` and `area` fields out as plain values.
#[verifier::external_body]
fn parse_asteroid(body: &str) -> (r: Option<(u64, String, u64)>)
    ensures
        r matches Some(t) ==> asteroid_fields_of(body@) == Some((t.0, t.1@, t.2)),
        r is None <==> asteroid_fields_of(body@) is None,
{
    let v: serde_json::Value = serde_json::from_str(body).ok()?;
    let id = v.get("id")?.as_u64()?;
    let name = v.get("name")?.as_str()?.to_owned();
    let area = v.get("area")?.as_u64()?;
    Some((id, name, area))
}

/// The typed outcome an asteroid lookup decodes to: a failed exchange is a
/// transport error, a non-success status is a protocol error carrying that
/// status, a body without the record's fields is a decode error, and
/// otherwise the record's plain fields.
pub open spec fn asteroid_response_value(outcome: FetchOutcome) -> Result<
    (u64, Seq<char>, u64),
    CoreError,
> {
    match outcome {
        FetchOutcome::Failed => Err(CoreError::TransportError),
        FetchOutcome::Response { status, body } => if !is_success_status(status) {
            Err(CoreError::ProtocolError { status })
        } else {
            match asteroid_fields_of(body@) {
                Some(t) => Ok(t),
                None => Err(CoreError::DecodeError),
            }
        },
    }
}

/// The character of one decimal digit value.
pub open spec fn dec_digit(d: int) -> char {
    if d == 0 {
        '0'
    } else if d == 1 {
        '1'
    } else if d == 2 {
        '2'
    } else if d == 3 {
        '3'
    } else if d == 4 {
        '4'
    } else if d == 5 {
        '5'
    } else if d == 6 {
        '6'
    } else if d == 7 {
        '7'
    } else if d == 8 {
        '8'
    } else {
        '9'
    }
}

/// The decimal rendering of a number, most significant digit first, no
/// leading zeroes (a lone zero for zero).
pub open spec fn dec_str(n: nat) -> Seq<char>
    decreases n,
{
    if n < 10 {
        seq![dec_digit(n as int)]
    } else {
        dec_str(n / 10) + seq![dec_digit((n % 10) as int)]
    }
}

/// The one-character string of one decimal digit value.
fn digit_str(d: u64) -> (r: &'static str)
    requires
        d < 10,
    ensures
        r@ == seq![dec_digit(d as int)],
{
    if d == 0 {
        proof {
            reveal_strlit("0");
            assert("0"@ =~= seq![dec_digit(0)]);
        }
        "0"
    } else if d == 1 {
        proof {
            reveal_strlit("1");
            assert("1"@ =~= seq![dec_digit(1)]);
        }
        "1"
    } else if d == 2 {
        proof {
            reveal_strlit("2");
            assert("2"@ =~= seq![dec_digit(2)]);
        }
        "2"
    } else if d == 3 {
        proof {
            reveal_strlit("3");
            assert("3"@ =~= seq![dec_digit(3)]);
        }
        "3"
    } else if d == 4 {
        proof {
            reveal_strlit("4");
            assert("4"@ =~= seq![dec_digit(4)]);
        }
        "4"
    } else if d == 5 {
        proof {
            reveal_strlit("5");
            assert("5"@ =~= seq![dec_digit(5)]);
        }
        "5"
    } else if d == 6 {
        proof {
            reveal_strlit("6");
            assert("6"@ =~= seq![dec_digit(6)]);
        }
        "6"
    } else if d == 7 {
        proof {
            reveal_strlit("7");
            assert("7"@ =~= seq![dec_digit(7)]);
        }
        "7"
    } else if d == 8 {
        proof {
            reveal_strlit("8");
            assert("8"@ =~= seq![dec_digit(8)]);
        }
        "8"
    } else {
        proof {
            reveal_strlit("9");
            assert("9"@ =~= seq![dec_digit(9)]);
        }
        "9"
    }
}

/// Render a number in decimal.
fn u64_to_dec(n: u64) -> (r: String)
    ensures
        r@ == dec_str(n as nat),
    decreases n,
{
    if n < 10 {
        digit_str(n).to_owned()
    } else {
        let prefix = u64_to_dec(n / 10);
        prefix.concat(digit_str(n % 10))
    }
}

/// The path of an asteroid lookup under a base URL.
pub open spec fn asteroid_url_of(base: Seq<char>, asteroid_id: nat) -> Seq<char> {
    base + "/v1/asteroids/"@ + dec_str(asteroid_id)
}

/// The path of the market-stats lookup under a base URL.
pub open spec fn market_prices_url_of(base: Seq<char>) -> Seq<char> {
    base + "/v4/encyclopedia/market_stats"@
}

/// One priced commodity: its name and unit price in hundredths of the
/// quoted currency unit, kept integral.
#[derive(Debug, Clone, PartialEq, Eq)]
pub struct MarketEntry {
    pub commodity: String,
    pub price_cents: u64,
}

/// A market price snapshot: commodity names to unit prices.
#[derive(Debug, Clone, PartialEq, Eq)]
pub struct MarketSnapshot {
    pub entries: Vec<MarketEntry>,
}

impl MarketSnapshot {
    /// The snapshot as (commodity, price-in-cents) pairs.
    pub open spec fn model(&self) -> Seq<(Seq<char>, u64)> {
        self.entries@.map_values(|e: MarketEntry| (e.commodity@, e.price_cents))
    }
}

/// The fixed fallback table: Iron Ore at 1.15, Steel at 18.20 and
/// Propellant at 45.00 units, each price in hundredths.
pub open spec fn fallback_snapshot() -> Seq<(Seq<char>, u64)> {
    seq![("Iron Ore"@, 115u64), ("Steel"@, 1820u64), ("Propellant"@, 4500u64)]
}

/// Crew metadata: busy flag, busy-until timestamp, food stock in
/// kilograms, location lot identifier, and crew class identifier.
#[derive(Debug, Clone, Copy, PartialEq, Eq, Structural)]
pub struct CrewMetadata {
    pub is_busy: bool,
    pub busy_until_ts: u64,
    pub food_kg: u32,
    pub location_lot: u64,
    pub class_id: u8,
}

/// A crew-metadata lookup outcome. The live upstream integration does not
/// exist yet, so the only variant tags its payload as placeholder data: no
/// caller can ship the fixed tuple believing it came from upstream.
#[derive(Debug, Clone, Copy, PartialEq, Eq, Structural)]
pub enum CrewLookup {
    NotYetIntegrated(CrewMetadata),
}

/// Client for the economy REST API: one base URL and the shared admission
/// gate.
pub struct InfluenceClient {
    base_url: String,
    limiter: ApiRateLimiter,
}

impl InfluenceClient {
    /// The base URL every request path is rooted at.
    pub closed spec fn base_url(&self) -> Seq<char> {
        self.base_url@
    }

    /// The shared admission gate.
    pub closed spec fn limiter(&self) -> ApiRateLimiter {
        self.limiter
    }

    /// A usable client: a well-formed limiter at the default quota.
    pub open spec fn wf(&self) -> bool {
        &&& self.limiter().wf()
        &&& self.limiter().quota() == INFLUENCE_QUOTA_PER_SECOND
    }

    /// Build a client over the resolved base URL, or the fixed default
    /// when the configuration supplies none.
    pub fn new(base_url: Option<String>) -> (r: Result<InfluenceClient, CoreError>)
        ensures
            r is Ok,
            r matches Ok(c) ==> ({
                &&& c.wf()
                &&& c.limiter().admitted() == 0
                &&& base_url matches Some(u) ==> c.base_url() == u@
                &&& base_url is None ==> c.base_url() == spec_default_base_url()
            }),
    {
        let url = match base_url {
            Some(u) => u,
            None => "https://api.influenceth.io".to_owned(),
        };
        let limiter = match ApiRateLimiter::new(INFLUENCE_QUOTA_PER_SECOND) {
            Ok(l) => l,
            // Unreachable: the default quota is positive.
            Err(_) => {
                return Err(CoreError::ConfigurationError);
            },
        };
        Ok(InfluenceClient { base_url: url, limiter })
    }

    /// Ask the shared limiter for a token at instant `now_ms`; the base
    /// URL is untouched either way. See [`ApiRateLimiter::check`].
    pub fn check(&mut self, now_ms: u64) -> (r: CheckOutcome)
        requires
            old(self).wf(),
            now_ms <= u64::MAX - crate::rate_limiter::WINDOW_MS,
        ensures
            final(self).wf(),
            final(self).base_url() == old(self).base_url(),
            r == CheckOutcome::Admitted <==> (old(self).limiter().admitted() == 0
                || now_ms >= old(self).limiter().window_start()
                    + crate::rate_limiter::WINDOW_MS
                || old(self).limiter().admitted() < old(self).limiter().quota()),
            r == CheckOutcome::Admitted ==> ApiRateLimiter::admission(
                old(self).limiter(),
                now_ms,
                final(self).limiter(),
            ),
            r is RetryAtMs ==> final(self).limiter() == old(self).limiter() && r
                == CheckOutcome::RetryAtMs(
                (old(self).limiter().window_start() + crate::rate_limiter::WINDOW_MS) as u64,
            ),
    {
        self.limiter.check(now_ms)
    }

    /// The URL an asteroid lookup is issued against.
    pub fn asteroid_url(&self, asteroid_id: u64) -> (r: String)
        ensures
            r@ == asteroid_url_of(self.base_url(), asteroid_id as nat),
    {
        let mut url = self.base_url.clone();
        url.append("/v1/asteroids/");
        let digits = u64_to_dec(asteroid_id);
        url.append(digits.as_str());
        url
    }

    /// The URL the market-price lookup is issued against.
    pub fn market_prices_url(&self) -> (r: String)
        ensures
            r@ == market_prices_url_of(self.base_url()),
    {
        let mut url = self.base_url.clone();
        url.append("/v4/encyclopedia/market_stats");
        url
    }

    /// Decode the outcome of an asteroid lookup into the typed record, or
    /// the error the exchange deserves: a failed exchange is a transport
    /// error, a non-success status a protocol error carrying that status —
    /// recoverable from the error value — and a body without the record's
    /// fields a decode error.
    pub fn get_asteroid(&self, outcome: &FetchOutcome) -> (r: Result<Asteroid, CoreError>)
        ensures
            r matches Ok(a) ==> asteroid_response_value(*outcome) == Result::<
                (u64, Seq<char>, u64),
                CoreError,
            >::Ok((a.id, a.name@, a.area)),
            r matches Err(e) ==> asteroid_response_value(*outcome) == Result::<
                (u64, Seq<char>, u64),
                CoreError,
            >::Err(e),
    {
        match outcome {
            FetchOutcome::Failed => Err(CoreError::TransportError),
            FetchOutcome::Response { status, body } => {
                if *status < 200 || *status >= 300 {
                    return Err(CoreError::ProtocolError { status: *status });
                }
                match parse_asteroid(body.as_str()) {
                    Some((id, name, area)) => Ok(Asteroid { id, name, area }),
                    None => Err(CoreError::DecodeError),
                }
            },
        }
    }

    /// Produce the market-price snapshot for an attempted fetch, absorbing
    /// every failure: whatever the exchange produced — no connection, a
    /// non-success status, or a body whose schema is not yet integrated —
    /// the caller receives the fixed fallback table and no error. This is
    /// the one operation that prioritizes availability over freshness by
    /// design.
    pub fn fetch_unauthenticated_market_prices(&self, _outcome: &FetchOutcome) -> (r:
        MarketSnapshot)
        ensures
            r.model() == fallback_snapshot(),
    {
        let mut entries: Vec<MarketEntry> = Vec::new();
        entries.push(MarketEntry { commodity: "Iron Ore".to_owned(), price_cents: 115 });
        entries.push(MarketEntry { commodity: "Steel".to_owned(), price_cents: 1820 });
        entries.push(MarketEntry { commodity: "Propellant".to_owned(), price_cents: 4500 });
        let r = MarketSnapshot { entries };
        proof {
            assert(r.model() =~= fallback_snapshot());
        }
        r
    }

    /// Crew metadata for an identifier. The upstream read is not yet
    /// integrated: every call answers the fixed placeholder tuple — not
    /// busy, no timer, 750 kg food, lot 42, class 1 — tagged as such.
    pub fn get_crew_metadata(&self, _crew_id: u64) -> (r: CrewLookup)
        ensures
            r == CrewLookup::NotYetIntegrated(
                CrewMetadata {
                    is_busy: false,
                    busy_until_ts: 0,
                    food_kg: 750,
                    location_lot: 42,
                    class_id: 1,
                },
            ),
    {
        CrewLookup::NotYetIntegrated(
            CrewMetadata {
                is_busy: false,
                busy_until_ts: 0,
                food_kg: 750,
                location_lot: 42,
                class_id: 1,
            },
        )
    }
}

} // verus!
