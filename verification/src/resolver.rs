//! The connection resolver: which two endpoints make a signal connection,
//! and in which direction.

use crate::connection::Connection;
use crate::connection::Terminal;
use vstd::prelude::*;

verus! {

/// The connection that two endpoints make, as the pair of its input and its
/// output: one of them has to be an input and the other an output, in either
/// order.
pub open spec fn resolve_spec(first: Connection, second: Connection) -> Option<
    (Connection, Connection),
> {
    match (first.terminal, second.terminal) {
        (Terminal::Input(_), Terminal::Output(_)) => Some((first, second)),
        (Terminal::Output(_), Terminal::Input(_)) => Some((second, first)),
        _ => None,
    }
}

/// Resolves the two endpoints of a wire gesture, the first being where the
/// pointer was pressed and the second where it was released, into the input
/// and the output of a connection.
pub fn resolve(first: Connection, second: Connection) -> (r: Option<(Connection, Connection)>)
    ensures
        r == resolve_spec(first, second),
{
    match (first.terminal, second.terminal) {
        (Terminal::Input(_), Terminal::Output(_)) => Some((first, second)),
        (Terminal::Output(_), Terminal::Input(_)) => Some((second, first)),
        _ => None,
    }
}

/// The resolver does not care which endpoint was pressed first.
pub proof fn lemma_resolve_symmetric(a: Connection, b: Connection)
    ensures
        resolve_spec(a, b) == resolve_spec(b, a),
{
}

/// Two inputs make no connection, nor do two outputs; an input and an
/// output always make one.
pub proof fn lemma_resolve_kinds(a: Connection, b: Connection)
    ensures
        resolve_spec(a, b) is Some <==> (a.terminal is Input) != (b.terminal is Input),
        resolve_spec(a, b) matches Some((input, output)) ==> input.terminal is Input
            && output.terminal is Output && (input == a && output == b || input == b && output
            == a),
{
}

} // verus!
