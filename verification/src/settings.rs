//! What the server makes of its settings.

use vstd::prelude::*;

verus! {

/// The port that the server listens on where none is configured.
pub const DEFAULT_PORT: u16 = 22;

/// The beginning of the names of the files that hold the host's keys.
pub const HOST_KEY_PREFIX: &'static str = "ssh_host_";

/// The port for a configured number: its low 16 bits; the default where
/// nothing is configured.
pub open spec fn port_of(configured: Option<i64>) -> u16 {
    match configured {
        Some(number) => (number % 0x1_0000) as u16,
        None => DEFAULT_PORT,
    }
}

/// Whether `text` begins with `prefix`.
pub open spec fn begins_with(text: Seq<char>, prefix: Seq<char>) -> bool {
    prefix.len() <= text.len() && text.take(prefix.len() as int) == prefix
}

/// The port that the server listens on.
pub fn listen_port(configured: Option<i64>) -> (port: u16)
    ensures
        port == port_of(configured),
{
    match configured {
        Some(number) => {
            if number >= 0 {
                (number % 0x1_0000) as u16
            } else {
                let below: i64 = -(number + 1);
                let rest: i64 = below % 0x1_0000;
                assert(number % 0x1_0000 == 0xffff - rest) by (nonlinear_arith)
                    requires
                        number < 0,
                        below == -(number + 1),
                        rest == below % 0x1_0000,
                ;
                (0xffff - rest) as u16
            }
        },
        None => DEFAULT_PORT,
    }
}

/// Whether a file of this name holds a key of the host.
pub fn is_host_key_file(name: &str) -> (is_key: bool)
    ensures
        is_key == begins_with(name@, HOST_KEY_PREFIX@),
{
    let prefix = HOST_KEY_PREFIX;
    let wanted = prefix.unicode_len();
    let given = name.unicode_len();
    if given < wanted {
        return false;
    }
    let mut i: usize = 0;
    while i < wanted
        invariant
            i <= wanted <= given,
            wanted == prefix@.len(),
            given == name@.len(),
            prefix@ == HOST_KEY_PREFIX@,
            forall|k: int| 0 <= k < i ==> name@[k] == prefix@[k],
        decreases wanted - i,
    {
        if name.get_char(i) != prefix.get_char(i) {
            assert(name@.take(wanted as int)[i as int] != prefix@[i as int]);
            return false;
        }
        i += 1;
    }
    assert(name@.take(wanted as int) =~= prefix@);
    true
}

} // verus!
