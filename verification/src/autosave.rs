use vstd::prelude::*;

use std::time::Instant;

use crate::clock::{instant_now, micros_since};
use crate::paths::{extendable, extends_with, join_separator, path_join, plain_name};

verus! {

/// Whether `elapsed_us` microseconds hold at least `interval_secs` whole seconds.
pub open spec fn is_due(elapsed_us: u64, interval_secs: u64) -> bool {
    elapsed_us / 1_000_000 >= interval_secs
}

/// A save is due exactly when the whole interval, counted in microseconds,
/// has passed: never a moment before it, always from it on.
pub proof fn law_due_after_the_whole_interval(elapsed_us: u64, interval_secs: u64)
    ensures
        is_due(elapsed_us, interval_secs) <==> elapsed_us >= interval_secs * 1_000_000,
{
    assert(elapsed_us / 1_000_000 >= interval_secs <==> elapsed_us >= interval_secs * 1_000_000)
        by (nonlinear_arith);
}

/// Whether a save is due after `elapsed_us` microseconds when saves come
/// every `interval_secs` whole seconds.
pub fn autosave_due(elapsed_us: u64, interval_secs: u64) -> (r: bool)
    ensures
        r == is_due(elapsed_us, interval_secs),
        r <==> elapsed_us >= interval_secs * 1_000_000,
{
    proof {
        law_due_after_the_whole_interval(elapsed_us, interval_secs);
    }
    elapsed_us / 1_000_000 >= interval_secs
}

/// Where the automatic save goes, given the application data directory
/// where one is set: `autosave.sfxproj` in its `SFXBoard` folder, else in
/// the working directory `.`.
pub fn autosave_path(app_data: Option<String>) -> (r: String)
    ensures
        match app_data {
            Some(d) => extendable(d@) ==> exists|folder: Seq<char>|
                #![trigger extends_with(folder, d@, "SFXBoard"@)]
                extends_with(folder, d@, "SFXBoard"@) && extends_with(r@, folder, "autosave.sfxproj"@),
            None => extends_with(r@, "."@, "autosave.sfxproj"@),
        },
{
    proof {
        reveal_strlit("autosave.sfxproj");
        reveal_strlit("SFXBoard");
        reveal_strlit(".");
        reveal_strlit("..");
        assert(plain_name("SFXBoard"@));
        assert(plain_name("autosave.sfxproj"@));
    }
    match app_data {
        Some(d) => {
            let folder = path_join(d.as_str(), "SFXBoard");
            let r = path_join(folder.as_str(), "autosave.sfxproj");
            proof {
                if extendable(d@) {
                    let s1 = choose|s1: Seq<char>| join_separator(s1) && folder@ == d@ + s1 + "SFXBoard"@;
                    assert(folder@.last() == 'd');
                    assert forall|i: int| 0 <= i < folder@.len() implies folder@[i] != '?' by {
                        if i < d@.len() {
                            assert(folder@[i] == d@[i]);
                        } else if i < d@.len() + s1.len() {
                            assert(folder@[i] == s1[i - d@.len()]);
                        } else {
                            assert(folder@[i] == "SFXBoard"@[i - d@.len() - s1.len()]);
                        }
                    }
                    assert(extendable(folder@));
                    assert(extends_with(folder@, d@, "SFXBoard"@));
                }
            }
            r
        },
        None => {
            let r = path_join(".", "autosave.sfxproj");
            proof {
                assert(extendable("."@));
            }
            r
        },
    }
}

/// Remembers when the project was last saved automatically.
pub struct AutosaveManager {
    last_save_time: Instant,
    interval_secs: u64,
}

impl AutosaveManager {
    /// The time between automatic saves, in seconds.
    pub closed spec fn interval(&self) -> u64 {
        self.interval_secs
    }

    /// A manager that counts from now.
    pub fn new(interval_secs: u64) -> (r: Self)
        ensures
            r.interval() == interval_secs,
    {
        AutosaveManager { last_save_time: instant_now(), interval_secs }
    }

    /// Whether the interval has passed since the last save: the clock's
    /// reading of the time since then, judged by `autosave_due`. With no
    /// interval a save is always due.
    pub fn should_autosave(&self) -> (r: bool)
        ensures
            self.interval() == 0 ==> r,
    {
        let elapsed = micros_since(&self.last_save_time);
        autosave_due(elapsed, self.interval_secs)
    }

    /// Counts the interval again from now.
    pub fn mark_saved(&mut self)
        ensures
            final(self).interval() == old(self).interval(),
    {
        self.last_save_time = instant_now();
    }
}

} // verus!
