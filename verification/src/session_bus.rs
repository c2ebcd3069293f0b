//! The connection to the D-Bus session bus, made once and kept.
use vstd::prelude::*;

verus! {

/// Makes sure `slot` holds a connection: where it holds one already, `connect`
/// is not called and the answer is yes; otherwise `connect` is called once, a
/// connection it makes is kept, and the answer is whether it made one.
pub fn connect_dbus<C, E, F>(slot: &mut Option<C>, connect: F) -> (r: bool) where
    F: FnOnce() -> Result<C, E>,

    requires
        connect.requires(()),
    ensures
        (*old(slot)) is Some ==> r && *final(slot) == *old(slot),
        (*old(slot)) is None ==> exists|res: Result<C, E>|
            {
                &&& #[trigger] connect.ensures((), res)
                &&& r == res is Ok
                &&& *final(slot) == match res {
                    Ok(c) => Some(c),
                    Err(_) => None,
                }
            },
{
    if slot.is_some() {
        return true;
    }
    match connect() {
        Ok(c) => {
            *slot = Some(c);
            true
        },
        Err(_) => false,
    }
}

} // verus!
