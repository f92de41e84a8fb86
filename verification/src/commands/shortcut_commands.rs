use vstd::prelude::*;

use crate::models::project::ProjectSettings;
use crate::recording::shortcut_manager::ShortcutManager;

verus! {

/// Turns the global shortcuts on or off and remembers the choice in the
/// project's settings; where the platform refuses a hotkey, the settings
/// stay as they were.
pub fn set_global_shortcuts_enabled(
    manager: &mut ShortcutManager,
    settings: &mut ProjectSettings,
    enabled: bool,
) -> (r: Result<(), String>)
    ensures
        final(manager)@.bindings == old(manager)@.bindings,
        r is Ok ==> final(manager)@.enabled == enabled && *final(settings) == (ProjectSettings {
            global_shortcuts_enabled: enabled,
            ..*old(settings)
        }),
        r matches Err(m) ==> {
            &&& enabled && !old(manager)@.enabled
            &&& !final(manager)@.enabled
            &&& "failed to register shortcut "@.is_prefix_of(m@)
            &&& *final(settings) == *old(settings)
        },
        old(manager)@.enabled == enabled || !enabled ==> r is Ok,
{
    match manager.set_enabled(enabled) {
        Ok(()) => {},
        Err(e) => {
            return Err(e);
        },
    }
    settings.global_shortcuts_enabled = enabled;
    Ok(())
}

/// Whether the global shortcuts are on.
pub fn get_global_shortcuts_enabled(manager: &ShortcutManager) -> (r: bool)
    ensures
        r == manager@.enabled,
{
    manager.enabled()
}

} // verus!
