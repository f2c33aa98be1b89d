//! The address that a program's arguments name.

use vstd::prelude::*;
use vstd::string::*;

verus! {

/// The address that the arguments name: host and port from the second and
/// third of exactly three arguments, `localhost:11111` for any other number
/// of them.
pub open spec fn hostname_of(args: Seq<Seq<char>>) -> Seq<char> {
    if args.len() == 3 {
        args[1] + ":"@ + args[2]
    } else {
        "localhost"@ + ":"@ + "11111"@
    }
}

/// The address that a program's arguments name, as `host:port`.
pub fn get_hostname(args: Vec<String>) -> (address: String)
    ensures
        address@ == hostname_of(Seq::new(args@.len(), |i: int| args@[i]@)),
{
    let mut address = String::new();
    if args.len() == 3 {
        address.append(args[1].as_str());
        address.append(":");
        address.append(args[2].as_str());
    } else {
        address.append("localhost");
        address.append(":");
        address.append("11111");
    }
    address
}

} // verus!
