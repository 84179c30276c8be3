//! Presence states of users and iotas.

use vstd::prelude::*;

use crate::text::str_equal;

verus! {

/// The presence state of a user or an iota.
#[derive(Debug, Clone, Copy, PartialEq, Eq, Hash, Structural)]
#[allow(non_camel_case_types)]
pub enum UserStatus {
    user_offline,
    user_online,
    user_dnd,
    user_idle,
    user_wc,
    user_borked,
    iota_offline,
    iota_online,
    iota_borked,
}

impl UserStatus {
    /// The name of the variant, as it travels on the wire.
    pub open spec fn spec_name(self) -> Seq<char> {
        match self {
            UserStatus::user_offline => "user_offline"@,
            UserStatus::user_online => "user_online"@,
            UserStatus::user_dnd => "user_dnd"@,
            UserStatus::user_idle => "user_idle"@,
            UserStatus::user_wc => "user_wc"@,
            UserStatus::user_borked => "user_borked"@,
            UserStatus::iota_offline => "iota_offline"@,
            UserStatus::iota_online => "iota_online"@,
            UserStatus::iota_borked => "iota_borked"@,
        }
    }

    /// The name of the variant, as it travels on the wire.
    pub fn name(&self) -> (r: &'static str)
        ensures
            r@ == self.spec_name(),
    {
        match self {
            UserStatus::user_offline => "user_offline",
            UserStatus::user_online => "user_online",
            UserStatus::user_dnd => "user_dnd",
            UserStatus::user_idle => "user_idle",
            UserStatus::user_wc => "user_wc",
            UserStatus::user_borked => "user_borked",
            UserStatus::iota_offline => "iota_offline",
            UserStatus::iota_online => "iota_online",
            UserStatus::iota_borked => "iota_borked",
        }
    }

    /// Every variant, in declaration order.
    pub open spec fn spec_all() -> Seq<UserStatus> {
        seq![
            UserStatus::user_offline,
            UserStatus::user_online,
            UserStatus::user_dnd,
            UserStatus::user_idle,
            UserStatus::user_wc,
            UserStatus::user_borked,
            UserStatus::iota_offline,
            UserStatus::iota_online,
            UserStatus::iota_borked,
        ]
    }

    /// Every variant, in declaration order.
    pub fn all() -> (r: Vec<UserStatus>)
        ensures
            r@ == UserStatus::spec_all(),
    {
        let v = vec![
            UserStatus::user_offline,
            UserStatus::user_online,
            UserStatus::user_dnd,
            UserStatus::user_idle,
            UserStatus::user_wc,
            UserStatus::user_borked,
            UserStatus::iota_offline,
            UserStatus::iota_online,
            UserStatus::iota_borked,
        ];
        assert(v@ =~= UserStatus::spec_all());
        v
    }

}

impl UserStatus {
    /// The status named exactly `s`, if any.
    pub open spec fn spec_from_str(s: Seq<char>) -> Option<UserStatus> {
        if exists|i: int| 0 <= i < UserStatus::spec_all().len() && #[trigger] UserStatus::spec_all()[i].spec_name() == s {
            Some(UserStatus::spec_all()[UserStatus::first_named(s, 0) as int])
        } else {
            None
        }
    }

    /// The index of the first status named `s`, searching from `i`.
    pub open spec fn first_named(s: Seq<char>, i: nat) -> nat
        decreases UserStatus::spec_all().len() - i,
    {
        if i >= UserStatus::spec_all().len() {
            i
        } else if UserStatus::spec_all()[i as int].spec_name() == s {
            i
        } else {
            UserStatus::first_named(s, i + 1)
        }
    }

    /// The status's name as an owned string.
    pub fn to_string(&self) -> (r: String)
        ensures
            r@ == self.spec_name(),
    {
        String::from_str(self.name())
    }

    /// Reads a status from its exact name.
    pub fn from_str(s: &str) -> (r: Option<UserStatus>)
        ensures
            r == UserStatus::spec_from_str(s@),
    {
        let all = UserStatus::all();
        let mut i: usize = 0;
        while i < all.len()
            invariant
                all@ == UserStatus::spec_all(),
                i <= all.len(),
                forall|j: int| 0 <= j < i ==> #[trigger] UserStatus::spec_all()[j].spec_name() != s@,
                UserStatus::first_named(s@, 0) == UserStatus::first_named(s@, i as nat),
            decreases all.len() - i,
        {
            let v = all[i];
            if str_equal(v.name(), s) {
                return Some(v);
            }
            i = i + 1;
        }
        None
    }
}

} // verus!
