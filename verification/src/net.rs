use vstd::prelude::*;

use crate::text::dec_digits;
use crate::text::u64_to_string;

verus! {

/// The dotted-quad text of a host address held as a 32-bit integer, highest
/// octet first.
pub open spec fn ipv4_str(u: nat) -> Seq<char> {
    dec_digits(u / 0x1000000 % 256) + seq!['.'] + dec_digits(u / 0x10000 % 256) + seq!['.']
        + dec_digits(u / 0x100 % 256) + seq!['.'] + dec_digits(u % 256)
}

/// Render a host address as dotted-quad text; the address's bytes are read
/// from the integer highest-first.
pub fn host_to_string(ip: i32) -> (r: String)
    ensures
        r@ == ipv4_str((ip as u32) as nat),
{
    proof {
        reveal_strlit(".");
    }
    let u = #[verifier::truncate] (ip as u32);
    let a = u / 0x1000000 % 256;
    let b = u / 0x10000 % 256;
    let c = u / 0x100 % 256;
    let d = u % 256;
    let mut s = u64_to_string(a as u64);
    s.append(".");
    let sb = u64_to_string(b as u64);
    s.append(sb.as_str());
    s.append(".");
    let sc = u64_to_string(c as u64);
    s.append(sc.as_str());
    s.append(".");
    let sd = u64_to_string(d as u64);
    s.append(sd.as_str());
    proof {
        assert("."@ =~= seq!['.']);
        assert(s@ =~= ipv4_str((ip as u32) as nat));
    }
    s
}

} // verus!
