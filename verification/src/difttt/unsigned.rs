//! Which unsigned transactions the pallet lets into the pool.
use vstd::prelude::*;

use super::Call;
use crate::text::{append_ascii, append_bytes, ascii_bytes};

verus! {

/// A transaction admitted to the pool.
#[derive(Debug)]
pub struct ValidTransaction {
    pub priority: u64,
    pub requires: Vec<Vec<u8>>,
    pub provides: Vec<Vec<u8>>,
    pub longevity: u64,
    pub propagate: bool,
}

/// Why a transaction is not admitted.
#[derive(Clone, Copy, Debug, PartialEq, Eq, Structural)]
pub enum InvalidTransaction {
    /// The call may not be sent unsigned.
    Call,
}

/// The tag that an admitted unsigned call provides: the SCALE encoding of the
/// pair (`"ocw-difttt"`, `[name]`), where both lengths fit in one compact byte.
pub open spec fn provides_tag(name: Seq<u8>) -> Seq<u8> {
    seq![40u8] + ascii_bytes("ocw-difttt"@) + seq![(4 * name.len()) as u8] + name
}

/// The name under which an unsigned call is admitted, if it may be sent unsigned.
pub open spec fn unsigned_call_name(call: &Call) -> Option<Seq<char>> {
    match call {
        Call::SetRecipeDoneUnsigned { .. } => Some("set_recipe_done_unsigned"@),
        Call::UpdateRecipeTrigerTimeUnsigned { .. } => Some("update_recipe_triger_time_unsigned"@),
        Call::UpdateRecipeOakHashUnsigned { .. } => Some("update_recipe_oak_hash_unsigned"@),
        Call::BuyTokenUnsigned { .. } => Some("buy_token_unsigned"@),
        _ => None,
    }
}

/// The SCALE tag for the ASCII name `name`, shorter than 64 bytes.
fn tag_for(name: &str) -> (r: Vec<u8>)
    requires
        vstd::string::is_ascii(name),
        name@.len() < 64,
    ensures
        r@ == provides_tag(ascii_bytes(name@)),
{
    proof {
        reveal_strlit("ocw-difttt");
    }
    let mut tag: Vec<u8> = Vec::new();
    tag.push(40);
    append_ascii(&mut tag, "ocw-difttt");
    let name_bytes = name.as_bytes();
    assert(name_bytes@ =~= ascii_bytes(name@));
    tag.push((4 * name_bytes.len()) as u8);
    append_bytes(&mut tag, name_bytes);
    assert(tag@ =~= provides_tag(ascii_bytes(name@)));
    tag
}

/// Admits the calls that the off-chain worker sends unsigned, each providing
/// its own tag, with the given priority, a longevity of 3 blocks and
/// propagation; refuses every other call.
pub fn validate_unsigned(call: &Call, priority: u64) -> (r: Result<ValidTransaction, InvalidTransaction>)
    ensures
        match unsigned_call_name(call) {
            None => r == Err::<ValidTransaction, InvalidTransaction>(InvalidTransaction::Call),
            Some(name) => r matches Ok(v) && v.priority == priority && v.requires@.len() == 0
                && v.provides@.len() == 1 && v.provides@[0]@ == provides_tag(ascii_bytes(name))
                && v.longevity == 3 && v.propagate,
        },
{
    proof {
        reveal_strlit("set_recipe_done_unsigned");
        reveal_strlit("update_recipe_triger_time_unsigned");
        reveal_strlit("update_recipe_oak_hash_unsigned");
        reveal_strlit("buy_token_unsigned");
    }
    let tag = match call {
        Call::SetRecipeDoneUnsigned { .. } => tag_for("set_recipe_done_unsigned"),
        Call::UpdateRecipeTrigerTimeUnsigned { .. } => tag_for("update_recipe_triger_time_unsigned"),
        Call::UpdateRecipeOakHashUnsigned { .. } => tag_for("update_recipe_oak_hash_unsigned"),
        Call::BuyTokenUnsigned { .. } => tag_for("buy_token_unsigned"),
        _ => return Err(InvalidTransaction::Call),
    };
    let mut provides: Vec<Vec<u8>> = Vec::new();
    provides.push(tag);
    Ok(ValidTransaction { priority, requires: Vec::new(), provides, longevity: 3, propagate: true })
}

} // verus!
