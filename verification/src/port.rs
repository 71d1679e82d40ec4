use vstd::prelude::*;
use rand::Rng;

verus! {

/// The lowest port the server picks.
pub const PORT_RANGE_START: u16 = 10000;

/// One past the highest port the server picks.
pub const PORT_RANGE_END: u16 = 65535;

/// `rand::Rng::gen_range` on the thread's generator: a number drawn at random
/// from `low` (included) to `high` (excluded). Which number comes out is left
/// to chance; only its range is claimed.
#[verifier::external_body]
fn draw_in_range(low: u16, high: u16) -> (n: u16)
    requires
        low < high,
    ensures
        low <= n < high,
{
    rand::thread_rng().gen_range(low..high)
}

/// A port to try for the download server, drawn at random from 10000 to 65534.
pub fn port_candidate() -> (port: u16)
    ensures
        PORT_RANGE_START <= port < PORT_RANGE_END,
{
    draw_in_range(PORT_RANGE_START, PORT_RANGE_END)
}

/// What the port search does after trying to bind a candidate.
#[derive(Clone, Copy, Debug, PartialEq, Eq, Structural)]
pub enum PortSearch {
    /// The port could be bound: use it.
    Found(u16),
    /// The port is taken: draw another one.
    Retry,
}

/// The decision after trying `candidate`: keep it when it could be bound.
pub fn port_search_step(candidate: u16, bound: bool) -> (next: PortSearch)
    ensures
        bound ==> next == PortSearch::Found(candidate),
        !bound ==> next == PortSearch::Retry,
{
    if bound {
        PortSearch::Found(candidate)
    } else {
        PortSearch::Retry
    }
}

/// Law: a port that the search settles on was drawn from the server's range.
pub proof fn lemma_found_port_in_range(candidate: u16, next: PortSearch)
    requires
        PORT_RANGE_START <= candidate < PORT_RANGE_END,
        next == PortSearch::Found(candidate) || next == PortSearch::Retry,
    ensures
        next matches PortSearch::Found(p) ==> PORT_RANGE_START <= p < PORT_RANGE_END,
{
}

} // verus!
