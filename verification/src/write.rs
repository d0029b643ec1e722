//! Checks made before a device is written to.

use vstd::prelude::*;

use crate::error::WriteError;
use crate::profiles;
use crate::profiles::is_rom_sector;

verus! {

/// Whether `sector` can hold a user profile: user profiles live in sectors
/// `0x0001..` and do not carry the ROM flag.
pub open spec fn user_sector(sector: u16) -> bool {
    sector != 0 && !profiles::rom_sector(sector)
}

/// Rejects a sector that holds no user profile. Firmware rejects ROM sectors as
/// active profiles, so they are turned down before any device I/O.
pub fn validate_user_profile(sector: u16) -> (valid: Result<(), WriteError>)
    ensures
        match valid {
            Ok(_) => user_sector(sector),
            Err(e) => !user_sector(sector) && e == (WriteError::InvalidProfileSector { sector }),
        },
        valid is Ok <==> sector != 0 && sector & 0x0100 == 0,
{
    if sector == 0 || is_rom_sector(sector) {
        Err(WriteError::InvalidProfileSector { sector })
    } else {
        Ok(())
    }
}

/// A sector can be made active exactly if it is not the directory's, number zero, and
/// bit 8 of its number is clear.
pub proof fn only_user_sectors_are_written(sector: u16)
    ensures
        user_sector(sector) <==> sector != 0 && sector & 0x0100 == 0,
{
    assert((sector & 0x0100 != 0) == ((sector / 0x0100) % 2 == 1)) by (bit_vector);
}

} // verus!
