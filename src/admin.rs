use vstd::prelude::*;

use crate::errors::ErrorCode;
use crate::state::{contains_address, is_admin, Address, Config};

verus! {

/// Slot of the first occurrence of `a` among the three admin slots, or -1.
pub open spec fn first_slot(admins: Seq<Address>, a: Address) -> int {
    if admins[0] == a {
        0
    } else if admins[1] == a {
        1
    } else if admins[2] == a {
        2
    } else {
        -1
    }
}

/// What `transfer_admin` makes of `config`: the registry after the replacement, or the error.
pub open spec fn transfer_admin_outcome(
    config: Config,
    caller: Address,
    old_admin: Address,
    new_admin: Address,
) -> Result<Seq<Address>, ErrorCode> {
    if !is_admin(config, caller) || !is_admin(config, old_admin) {
        Err(ErrorCode::Unauthorized)
    } else {
        Ok(config.admins@.update(first_slot(config.admins@, old_admin), new_admin))
    }
}

/// Creates the registry: the caller takes the first slot, `admin2` and `admin3` the others.
/// The three need not be distinct.
pub fn initialize_admin(user: Address, admin2: Address, admin3: Address) -> (config: Config)
    ensures
        config.admins@ == seq![user, admin2, admin3],
{
    let config = Config { admins: [user, admin2, admin3] };
    proof {
        assert(config.admins@ =~= seq![user, admin2, admin3]);
    }
    config
}

/// Replaces the first slot holding `old_admin` with `new_admin`. The caller must hold a slot.
pub fn transfer_admin(
    config: &mut Config,
    caller: Address,
    old_admin: Address,
    new_admin: Address,
) -> (r: Result<(), ErrorCode>)
    ensures
        match transfer_admin_outcome(*old(config), caller, old_admin, new_admin) {
            Ok(admins) => r is Ok && final(config).admins@ == admins,
            Err(e) => r == Err::<(), ErrorCode>(e) && *final(config) == *old(config),
        },
{
    if !contains_address(config.admins.as_slice(), caller) {
        return Err(ErrorCode::Unauthorized);
    }
    let mut i: usize = 0;
    while i < 3
        invariant
            0 <= i <= 3,
            *config == *old(config),
            is_admin(*old(config), caller),
            forall|j: int| 0 <= j < i ==> config.admins@[j] != old_admin,
        decreases 3 - i,
    {
        if config.admins[i] == old_admin {
            proof {
                assert(first_slot(old(config).admins@, old_admin) == i);
            }
            config.admins[i] = new_admin;
            proof {
                assert(config.admins@ =~= old(config).admins@.update(i as int, new_admin));
            }
            return Ok(());
        }
        i = i + 1;
    }
    proof {
        assert(!config.admins@.contains(old_admin));
    }
    Err(ErrorCode::Unauthorized)
}

} // verus!
