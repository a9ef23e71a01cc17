use vstd::prelude::*;
use vstd::std_specs::cmp::PartialEqSpecImpl;

verus! {

/// One clip of the catalog.
#[derive(Debug)]
pub struct Sound {
    pub name: String,
    pub id: u32,
    pub public: bool,
    pub server_id: u64,
    pub uploader_id: Option<u64>,
}

/// What a `Sound` holds, with its name as a sequence of characters.
pub struct SoundView {
    pub name: Seq<char>,
    pub id: u32,
    pub public: bool,
    pub server_id: u64,
    pub uploader_id: Option<u64>,
}

impl View for Sound {
    type V = SoundView;

    open spec fn view(&self) -> SoundView {
        SoundView {
            name: self.name@,
            id: self.id,
            public: self.public,
            server_id: self.server_id,
            uploader_id: self.uploader_id,
        }
    }
}

impl Clone for Sound {
    fn clone(&self) -> (copy: Sound)
        ensures
            copy@ == self@,
    {
        Sound {
            name: self.name.clone(),
            id: self.id,
            public: self.public,
            server_id: self.server_id,
            uploader_id: self.uploader_id,
        }
    }
}

/// Two sounds are the same sound when their ids agree, whatever else they hold.
impl PartialEq for Sound {
    fn eq(&self, other: &Sound) -> (same: bool) {
        self.id == other.id
    }
}

impl PartialEqSpecImpl for Sound {
    open spec fn obeys_eq_spec() -> bool {
        true
    }

    open spec fn eq_spec(&self, other: &Sound) -> bool {
        self.id == other.id
    }
}

impl SoundView {
    /// Whether `user` uploaded the sound.
    pub open spec fn owned_by(self, user: u64) -> bool {
        self.uploader_id == Some(user)
    }

    /// Whether a member `user` of `guild` may see the sound: it is public, their own, or
    /// their guild's.
    pub open spec fn visible_to(self, guild: u64, user: u64) -> bool {
        self.public || self.owned_by(user) || self.server_id == guild
    }

    /// How far up a search by `user` in `guild` places the sound. Uploaded by the caller
    /// outweighs favorited by the caller, which outweighs belonging to the caller's guild,
    /// which outweighs being public.
    pub open spec fn rank(self, guild: u64, user: u64, favorite: bool) -> nat {
        (if self.owned_by(user) { 8nat } else { 0 }) + (if favorite { 4nat } else { 0 })
            + (if self.server_id == guild { 2nat } else { 0 })
            + (if self.public { 1nat } else { 0 })
    }
}

impl Sound {
    /// Whether `user` uploaded the sound.
    pub fn owned_by(&self, user: u64) -> (r: bool)
        ensures
            r == self@.owned_by(user),
    {
        match self.uploader_id {
            Some(uploader) => uploader == user,
            None => false,
        }
    }

    /// Whether a member `user` of `guild` may see the sound.
    pub fn visible_to(&self, guild: u64, user: u64) -> (r: bool)
        ensures
            r == self@.visible_to(guild, user),
    {
        self.public || self.owned_by(user) || self.server_id == guild
    }

    /// The place of the sound in a search by `user` in `guild`; `favorite` says whether the
    /// caller has it among their favorites.
    pub fn rank(&self, guild: u64, user: u64, favorite: bool) -> (r: u8)
        ensures
            r == self@.rank(guild, user, favorite),
            r < 16,
    {
        let mut r: u8 = 0;
        if self.owned_by(user) {
            r += 8;
        }
        if favorite {
            r += 4;
        }
        if self.server_id == guild {
            r += 2;
        }
        if self.public {
            r += 1;
        }
        r
    }
}

} // verus!
