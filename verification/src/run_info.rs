use vstd::prelude::*;
use vstd::string::StringExecFns;

verus! {

/// The line `name=value` that a run's info file holds for one setting.
pub open spec fn info_line(name: Seq<char>, value: Seq<char>) -> Seq<char> {
    name + seq!['='] + value + seq!['\n']
}

/// Appends the line `name=value` to a run's info text.
pub fn push_info(info: &mut String, name: &str, value: &str)
    ensures
        final(info)@ == old(info)@ + info_line(name@, value@),
{
    info.append(name);
    info.append("=");
    info.append(value);
    info.append("\n");
    proof {
        reveal_strlit("=");
        reveal_strlit("\n");
    }
    assert(info@ =~= old(info)@ + info_line(name@, value@));
}

} // verus!
