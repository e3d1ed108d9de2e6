//! Named animations, registered once after loading and looked up by name.

use vstd::prelude::*;
use vstd::string::*;
use crate::movement::MovementDirection;
use crate::resources::Resource;

verus! {

/// Identifies a registered animation.
#[derive(Debug, Clone, Copy, PartialEq, Eq, Structural)]
pub struct AnimationId(pub usize);

/// Registered animations: the frame indices of each, and its unique name.
pub struct AnimationCatalog {
    pub names: Vec<String>,
    pub clips: Vec<Vec<usize>>,
}

/// Why an animation could not be registered.
#[derive(Debug, Clone, Copy, PartialEq, Eq, Structural)]
pub enum CatalogError {
    NameAlreadyTaken,
}

/// Index of the first name equal to `name`, if any.
pub open spec fn index_of(names: Seq<Seq<char>>, name: Seq<char>) -> Option<int> {
    if exists|i: int| 0 <= i < names.len() && names[i] == name {
        Some(choose|i: int| 0 <= i < names.len() && names[i] == name)
    } else {
        None
    }
}

impl AnimationCatalog {
    pub open spec fn name_seq(&self) -> Seq<Seq<char>> {
        self.names@.map_values(|s: String| s@)
    }

    /// Names are unique and each has its clip.
    pub open spec fn wf(&self) -> bool {
        &&& self.names.len() == self.clips.len()
        &&& forall|i: int, j: int|
            0 <= i < j < self.names.len() ==> #[trigger] self.names[i]@ != #[trigger] self.names[j]@
    }

    /// The animation registered under `name`.
    pub open spec fn lookup(&self, name: Seq<char>) -> Option<AnimationId> {
        match index_of(self.name_seq(), name) {
            Some(i) => Some(AnimationId(i as usize)),
            None => None,
        }
    }

    pub fn new() -> (c: AnimationCatalog)
        ensures
            c.wf(),
            c.names@.len() == 0,
    {
        AnimationCatalog { names: Vec::new(), clips: Vec::new() }
    }

    /// Finds the animation registered under `name`.
    pub fn animation_with_name(&self, name: &String) -> (r: Option<AnimationId>)
        requires
            self.wf(),
        ensures
            r == self.lookup(name@),
            r matches Some(id) ==> id.0 < self.names.len() && self.names[id.0 as int]@ == name@,
    {
        let mut i: usize = 0;
        while i < self.names.len()
            invariant
                0 <= i <= self.names.len(),
                self.wf(),
                forall|j: int| 0 <= j < i ==> #[trigger] self.names[j]@ != name@,
            decreases self.names.len() - i,
        {
            if self.names[i] == *name {
                proof {
                    assert(self.name_seq()[i as int] == name@);
                    let k = choose|k: int| 0 <= k < self.name_seq().len() && self.name_seq()[k] == name@;
                    assert(self.names[k]@ == name@);
                    if k != i {
                        if k < i {
                            assert(self.names[k]@ != name@);
                        } else {
                            assert(self.names[i as int]@ != self.names[k]@);
                        }
                    }
                }
                return Some(AnimationId(i));
            }
            i = i + 1;
        }
        proof {
            assert forall|j: int| 0 <= j < self.name_seq().len() implies self.name_seq()[j] != name@ by {
                assert(self.names[j]@ != name@);
            }
        }
        None
    }

    /// Registers a clip under a new name.
    pub fn register(&mut self, name: String, frames: Vec<usize>) -> (r: Result<AnimationId, CatalogError>)
        requires
            old(self).wf(),
        ensures
            final(self).wf(),
            old(self).lookup(name@) is Some ==> r == Err::<AnimationId, CatalogError>(CatalogError::NameAlreadyTaken) && *final(self) == *old(self),
            old(self).lookup(name@) is None ==> r == Ok::<AnimationId, CatalogError>(AnimationId(old(self).names.len() as usize))
                && final(self).names@ == old(self).names@.push(name)
                && final(self).clips@ == old(self).clips@.push(frames),
    {
        match self.animation_with_name(&name) {
            Some(_) => Err(CatalogError::NameAlreadyTaken),
            None => {
                let id = self.names.len();
                proof {
                    assert forall|j: int| 0 <= j < self.names.len() implies self.names[j]@ != name@ by {
                        assert(self.name_seq()[j] == self.names[j]@);
                    }
                }
                self.names.push(name);
                self.clips.push(frames);
                Ok(AnimationId(id))
            },
        }
    }
}


/// The names and clips of a catalog.
pub open spec fn catalog_view(c: AnimationCatalog) -> (Seq<Seq<char>>, Seq<Seq<usize>>) {
    (c.name_seq(), c.clips@.map_values(|v: Vec<usize>| v@))
}

/// Names and clips after registering a configuration in order, skipping
/// names already taken.
pub open spec fn loaded(
    names: Seq<Seq<char>>,
    clips: Seq<Seq<usize>>,
    config: Seq<(String, Vec<usize>)>,
) -> (Seq<Seq<char>>, Seq<Seq<usize>>)
    decreases config.len(),
{
    if config.len() == 0 {
        (names, clips)
    } else {
        let (n, c) = loaded(names, clips, config.drop_last());
        let last = config.last();
        if n.contains(last.0@) {
            (n, c)
        } else {
            (n.push(last.0@), c.push(last.1@))
        }
    }
}

/// Registers each named clip of a loaded configuration, in order. A name
/// that is already taken keeps its first clip; the later one is skipped.
pub fn load_animations(catalog: &mut AnimationCatalog, config: Vec<(String, Vec<usize>)>)
    requires
        old(catalog).wf(),
    ensures
        final(catalog).wf(),
        catalog_view(*final(catalog)) == loaded(catalog_view(*old(catalog)).0, catalog_view(*old(catalog)).1, config@),
        forall|i: int| 0 <= i < config.len() ==> (#[trigger] final(catalog).lookup(config[i].0@)) is Some,
        forall|name: Seq<char>| (#[trigger] old(catalog).lookup(name)) is Some ==> final(catalog).lookup(name) == old(catalog).lookup(name),
{
    let mut rest = config;
    let ghost all = rest@;
    let ghost mut done: int = 0;
    while rest.len() > 0
        invariant
            catalog.wf(),
            0 <= done <= all.len(),
            rest@ == all.subrange(done, all.len() as int),
            catalog_view(*catalog) == loaded(catalog_view(*old(catalog)).0, catalog_view(*old(catalog)).1, all.subrange(0, done)),
            forall|i: int| 0 <= i < done ==> (#[trigger] catalog.lookup(all[i].0@)) is Some,
            forall|name: Seq<char>| (#[trigger] old(catalog).lookup(name)) is Some ==> catalog.lookup(name) == old(catalog).lookup(name),
        decreases rest.len(),
    {
        let ghost old_rest = rest@;
        let (name, frames) = rest.remove(0);
        let ghost before = *catalog;
        let ghost key = name@;
        proof {
            assert(old_rest[0] == all[done]);
            assert(key == all[done].0@);
        }
        let ghost fr = frames@;
        proof {
            assert(old_rest[0].1@ == fr);
        }
        let _ = catalog.register(name, frames);
        proof {
            assert(all.subrange(0, done + 1).drop_last() =~= all.subrange(0, done));
            assert(before.name_seq().contains(key) == (before.lookup(key) is Some));
            if before.lookup(key) is None {
                assert(catalog.name_seq() =~= before.name_seq().push(key));
                assert(catalog.clips@.map_values(|v: Vec<usize>| v@) =~= before.clips@.map_values(|v: Vec<usize>| v@).push(fr));
            }
            if before.lookup(key) is None {
                assert(catalog.names@.subrange(0, before.names@.len() as int) =~= before.names@);
            }
            lemma_lookup_grows(before, *catalog);
            assert(catalog.lookup(key) is Some) by {
                if before.lookup(key) is None {
                    assert(catalog.name_seq()[before.names.len() as int] == key);
                }
            }
            assert forall|i: int| 0 <= i < done + 1 implies (#[trigger] catalog.lookup(all[i].0@)) is Some by {
                if i < done {
                    assert(before.lookup(all[i].0@) is Some);
                }
            }
            done = done + 1;
            assert(rest@ =~= all.subrange(done, all.len() as int));
        }
    }
    proof {
        assert(all.subrange(0, done) =~= all);
    }
}

proof fn lemma_lookup_grows(before: AnimationCatalog, after: AnimationCatalog)
    requires
        before.wf(),
        after.wf(),
        after == before || after.names@.len() == before.names@.len() + 1 && after.names@.subrange(0, before.names@.len() as int) == before.names@,
    ensures
        forall|name: Seq<char>| (#[trigger] before.lookup(name)) is Some ==> after.lookup(name) == before.lookup(name),
{
    assert forall|name: Seq<char>| (#[trigger] before.lookup(name)) is Some implies after.lookup(name) == before.lookup(name) by {
        let i = index_of(before.name_seq(), name)->0;
        assert(before.name_seq()[i] == name);
        assert(after.names[i]@ == before.names[i]@);
        assert(after.name_seq()[i] == name);
        let k = index_of(after.name_seq(), name)->0;
        assert(after.names[k]@ == name);
        if k != i {
            if k < i {
                assert(after.names[k]@ != after.names[i]@);
            } else {
                assert(after.names[i]@ != after.names[k]@);
            }
        }
    }
}


/// The animation the player runs for each facing.
pub open spec fn player_animation_name(d: MovementDirection) -> Seq<char> {
    match d {
        MovementDirection::Up => "player_running_up"@,
        MovementDirection::UpLeft => "player_running_up_left"@,
        MovementDirection::Left => "player_running_left"@,
        MovementDirection::DownLeft => "player_running_down_left"@,
        MovementDirection::Idle => "player_idle"@,
        MovementDirection::Down => "player_running_down"@,
        MovementDirection::DownRight => "player_running_down_right"@,
        MovementDirection::Right => "player_running_right"@,
        MovementDirection::RightUp => "player_running_up_right"@,
    }
}

/// The animation a dropped resource of each kind plays.
pub open spec fn resource_animation_name(kind: Resource) -> Seq<char> {
    match kind {
        Resource::Gold => "gold_blink"@,
        Resource::Crystals => "crystals_blink"@,
        Resource::Gems => "gems_blink"@,
        Resource::Mercury => "mercury"@,
        Resource::Sulfur => "sulfur"@,
        Resource::Ore => "ore"@,
        Resource::Wood => "wood"@,
    }
}

pub fn player_animation(d: MovementDirection) -> (r: &'static str)
    ensures
        r@ == player_animation_name(d),
{
    match d {
        MovementDirection::Up => "player_running_up",
        MovementDirection::UpLeft => "player_running_up_left",
        MovementDirection::Left => "player_running_left",
        MovementDirection::DownLeft => "player_running_down_left",
        MovementDirection::Idle => "player_idle",
        MovementDirection::Down => "player_running_down",
        MovementDirection::DownRight => "player_running_down_right",
        MovementDirection::Right => "player_running_right",
        MovementDirection::RightUp => "player_running_up_right",
    }
}

pub fn resource_animation(kind: Resource) -> (r: &'static str)
    ensures
        r@ == resource_animation_name(kind),
{
    match kind {
        Resource::Gold => "gold_blink",
        Resource::Crystals => "crystals_blink",
        Resource::Gems => "gems_blink",
        Resource::Mercury => "mercury",
        Resource::Sulfur => "sulfur",
        Resource::Ore => "ore",
        Resource::Wood => "wood",
    }
}

impl AnimationCatalog {
    /// Finds the animation registered under a borrowed name.
    pub fn find(&self, name: &str) -> (r: Option<AnimationId>)
        requires
            self.wf(),
        ensures
            r == self.lookup(name@),
            r matches Some(id) ==> id.0 < self.names.len(),
    {
        let owned = String::from_str(name);
        self.animation_with_name(&owned)
    }
}


/// Identifies a loaded sprite sheet.
#[derive(Debug, Clone, Copy, PartialEq, Eq, Structural)]
pub struct SheetHandle(pub u64);

/// `needle` occurs in `hay` as a contiguous run.
pub open spec fn contains_at(hay: Seq<char>, needle: Seq<char>, i: int) -> bool {
    0 <= i && i + needle.len() <= hay.len() && hay.subrange(i, i + needle.len()) == needle
}

pub open spec fn contains(hay: Seq<char>, needle: Seq<char>) -> bool {
    exists|i: int| contains_at(hay, needle, i)
}

/// The handle of the first entry whose key contains `name`.
pub open spec fn first_containing(entries: Seq<(String, SheetHandle)>, name: Seq<char>) -> Option<SheetHandle>
    decreases entries.len(),
{
    if entries.len() == 0 {
        None
    } else {
        let rest = first_containing(entries.drop_last(), name);
        if rest is Some {
            rest
        } else if contains(entries.last().0@, name) {
            Some(entries.last().1)
        } else {
            None
        }
    }
}

/// Whether `needle` occurs in `hay`.
pub fn str_contains(hay: &str, needle: &str) -> (r: bool)
    ensures
        r == contains(hay@, needle@),
{
    let h = hay.unicode_len();
    let n = needle.unicode_len();
    if n > h {
        proof {
            assert forall|i: int| !contains_at(hay@, needle@, i) by {}
        }
        return false;
    }
    let mut i: usize = 0;
    while i <= h - n
        invariant
            h == hay@.len(),
            n == needle@.len(),
            n <= h,
            0 <= i <= h - n + 1,
            forall|k: int| 0 <= k < i ==> !contains_at(hay@, needle@, k),
        decreases h - n + 1 - i,
    {
        let mut j: usize = 0;
        let mut same = true;
        while j < n && same
            invariant
                h == hay@.len(),
                n == needle@.len(),
                i + n <= h,
                0 <= j <= n,
                same ==> forall|m: int| 0 <= m < j ==> hay@[i + m] == needle@[m],
                !same ==> exists|m: int| 0 <= m < n && hay@[i + m] != needle@[m],
            decreases n - j + (if same { 1int } else { 0int }),
        {
            if hay.get_char(i + j) != needle.get_char(j) {
                same = false;
            } else {
                j = j + 1;
            }
        }
        if same {
            proof {
                assert(hay@.subrange(i as int, i + n) =~= needle@);
                assert(contains_at(hay@, needle@, i as int));
            }
            return true;
        }
        proof {
            let m = choose|m: int| 0 <= m < n && hay@[i + m] != needle@[m];
            if contains_at(hay@, needle@, i as int) {
                assert(hay@.subrange(i as int, i + n)[m] == hay@[i + m]);
            }
        }
        i = i + 1;
    }
    proof {
        assert forall|k: int| !contains_at(hay@, needle@, k) by {
            if 0 <= k && k + n <= h {
                assert(k < i);
            }
        }
    }
    false
}

fn find_sheet(entries: &Vec<(String, SheetHandle)>, name: &str) -> (r: Option<SheetHandle>)
    ensures
        r == first_containing(entries@, name@),
{
    let mut i: usize = 0;
    while i < entries.len()
        invariant
            0 <= i <= entries.len(),
            first_containing(entries@.subrange(0, i as int), name@) is None,
        decreases entries.len() - i,
    {
        proof {
            assert(entries@.subrange(0, i + 1).drop_last() =~= entries@.subrange(0, i as int));
        }
        if str_contains(entries[i].0.as_str(), name) {
            proof {
                lemma_first_containing_prefix(entries@, name@, i as int + 1);
            }
            return Some(entries[i].1);
        }
        i = i + 1;
    }
    proof {
        assert(entries@.subrange(0, entries.len() as int) =~= entries@);
    }
    None
}

proof fn lemma_first_containing_prefix(entries: Seq<(String, SheetHandle)>, name: Seq<char>, k: int)
    requires
        0 <= k <= entries.len(),
        first_containing(entries.subrange(0, k), name) is Some,
    ensures
        first_containing(entries, name) == first_containing(entries.subrange(0, k), name),
    decreases entries.len() - k,
{
    if k < entries.len() {
        assert(entries.subrange(0, k + 1).drop_last() =~= entries.subrange(0, k));
        lemma_first_containing_prefix(entries, name, k + 1);
    } else {
        assert(entries.subrange(0, k) =~= entries);
    }
}

/// No two entries share a key.
pub open spec fn keys_unique<H>(entries: Seq<(String, H)>) -> bool {
    forall|i: int, j: int| 0 <= i < j < entries.len() ==> #[trigger] entries[i].0@ != #[trigger] entries[j].0@
}

/// Whether no two entries share a key.
pub fn unique_keys<H>(entries: &Vec<(String, H)>) -> (r: bool)
    ensures
        r == keys_unique(entries@),
{
    let n = entries.len();
    let mut j: usize = 0;
    while j < n
        invariant
            n == entries.len(),
            0 <= j <= n,
            keys_unique(entries@.subrange(0, j as int)),
        decreases n - j,
    {
        let mut i: usize = 0;
        while i < j
            invariant
                n == entries.len(),
                0 <= i <= j < n,
                keys_unique(entries@.subrange(0, j as int)),
                forall|k: int| 0 <= k < i ==> entries@[k].0@ != entries@[j as int].0@,
            decreases j - i,
        {
            if entries[i].0 == entries[j].0 {
                proof {
                    assert(entries@[i as int].0@ == entries@[j as int].0@);
                }
                return false;
            }
            i = i + 1;
        }
        proof {
            let t = entries@.subrange(0, j + 1);
            assert forall|a: int, b: int| 0 <= a < b < t.len() implies #[trigger] t[a].0@ != #[trigger] t[b].0@ by {
                if b < j {
                    assert(entries@.subrange(0, j as int)[a] == t[a]);
                    assert(entries@.subrange(0, j as int)[b] == t[b]);
                }
            }
        }
        j = j + 1;
    }
    proof {
        assert(entries@.subrange(0, n as int) =~= entries@);
    }
    true
}

/// Identifies a loaded texture-atlas layout: how a sheet splits into frames.
#[derive(Debug, Clone, Copy, PartialEq, Eq, Structural)]
pub struct LayoutHandle(pub u64);

/// The handle stored under exactly `key`.
pub open spec fn entry_named<H>(entries: Seq<(String, H)>, key: Seq<char>) -> Option<H>
    decreases entries.len(),
{
    if entries.len() == 0 {
        None
    } else if entries[0].0@ == key {
        Some(entries[0].1)
    } else {
        entry_named(entries.drop_first(), key)
    }
}

/// The sprite sheets of characters and monsters, keyed by sheet name, and
/// the frame layouts, keyed by field name (`monk_layout`); as in a map, no
/// key occurs twice in any of the lists.
pub struct GameAssetsHandles {
    pub characters_sheets: Vec<(String, SheetHandle)>,
    pub monsters_sheets: Vec<(String, SheetHandle)>,
    pub layouts: Vec<(String, LayoutHandle)>,
}

impl GameAssetsHandles {
    pub open spec fn wf(&self) -> bool {
        keys_unique(self.characters_sheets@) && keys_unique(self.monsters_sheets@) && keys_unique(self.layouts@)
    }

    /// The handles of the sheet and layout lists, or `None` when a list
    /// repeats a key.
    pub fn new(
        characters_sheets: Vec<(String, SheetHandle)>,
        monsters_sheets: Vec<(String, SheetHandle)>,
        layouts: Vec<(String, LayoutHandle)>,
    ) -> (r: Option<GameAssetsHandles>)
        ensures
            r is Some <==> keys_unique(characters_sheets@) && keys_unique(monsters_sheets@) && keys_unique(layouts@),
            r matches Some(h) ==> h.characters_sheets@ == characters_sheets@ && h.monsters_sheets@ == monsters_sheets@
                && h.layouts@ == layouts@,
    {
        if unique_keys(&characters_sheets) && unique_keys(&monsters_sheets) && unique_keys(&layouts) {
            Some(GameAssetsHandles { characters_sheets, monsters_sheets, layouts })
        } else {
            None
        }
    }

    /// The layout stored under the field name `name`.
    pub fn get_field(&self, name: &str) -> (r: Option<LayoutHandle>)
        ensures
            r == entry_named(self.layouts@, name@),
    {
        let key = String::from_str(name);
        let mut i: usize = 0;
        proof {
            assert(self.layouts@.subrange(0, self.layouts@.len() as int) =~= self.layouts@);
        }
        while i < self.layouts.len()
            invariant
                key@ == name@,
                0 <= i <= self.layouts.len(),
                entry_named(self.layouts@, name@) == entry_named(self.layouts@.subrange(i as int, self.layouts@.len() as int), name@),
            decreases self.layouts.len() - i,
        {
            let ghost rest = self.layouts@.subrange(i as int, self.layouts@.len() as int);
            proof {
                assert(rest.drop_first() =~= self.layouts@.subrange(i + 1, self.layouts@.len() as int));
                assert(rest[0] == self.layouts@[i as int]);
            }
            if self.layouts[i].0 == key {
                return Some(self.layouts[i].1);
            }
            i = i + 1;
        }
        proof {
            assert(self.layouts@.subrange(i as int, self.layouts@.len() as int).len() == 0);
        }
        None
    }

    /// The first character sheet whose name contains `name`.
    pub fn get_character_sheet_handle(&self, name: &str) -> (r: Option<SheetHandle>)
        ensures
            r == first_containing(self.characters_sheets@, name@),
    {
        find_sheet(&self.characters_sheets, name)
    }

    /// The first monster sheet whose name contains `name`.
    pub fn get_monster_sheet_handle(&self, name: &str) -> (r: Option<SheetHandle>)
        ensures
            r == first_containing(self.monsters_sheets@, name@),
    {
        find_sheet(&self.monsters_sheets, name)
    }
}

} // verus!
