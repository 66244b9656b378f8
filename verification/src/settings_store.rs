//! Persistent display settings in the board's data partition.
//!
//! The partition belongs to the settings alone: a map in it appends values and
//! rotates through the flash pages. What is decided here is how a store is
//! opened, what is written and what counts as saved.

use crate::settings;
use crate::settings::{DisplaySettings, SETTINGS_VALUE_SIZE};
use vstd::prelude::*;

verus! {

/// The key of the settings in the map.
pub const SETTINGS_KEY: u8 = 1;

/// Room for a key and a value.
pub const DATA_BUFFER_SIZE: usize = 32;

/// What an earlier layout of the partition begins with: "CLDS".
pub const LEGACY_MAGIC: [u8; 4] = [0x43, 0x4c, 0x44, 0x53];

#[derive(Debug, Clone, Copy, PartialEq, Eq, Structural)]
pub enum Error {
    PartitionTable,
    MissingPartition,
    PartitionTooSmall,
    Storage,
    Verification,
}

/// What came of the last action.
#[derive(Debug, Clone, Copy, PartialEq, Eq)]
pub enum OpenInput {
    /// The partition table was read, or could not be.
    TableRead(bool),
    /// The table was searched: unreadable, without the partition, or with it.
    PartitionSearched(Result<Option<(u32, u32)>, ()>),
    /// The first four bytes of the partition, or nothing.
    MagicRead(Option<(u8, u8, u8, u8)>),
    /// The partition was erased, or could not be.
    Erased(bool),
    /// The map accepted the partition, or found it too small.
    Configured(bool),
    /// The map was searched for settings, or could not be read.
    Loaded(Result<Option<DisplaySettings>, ()>),
    /// The map was erased, or could not be.
    Reset(bool),
}

/// What to do next.
#[derive(Debug, Clone, Copy, PartialEq, Eq, Structural)]
pub enum OpenAction {
    ReadTable,
    SearchPartition,
    /// Read four bytes.
    ReadMagic { offset: u32 },
    Erase { start: u32, end: u32 },
    /// Make a map of the range.
    Configure { start: u32, end: u32 },
    Load,
    EraseAll,
    /// The store is open and holds these settings.
    Ready(Option<DisplaySettings>),
    Fail(Error),
}

/// Opening a store.
#[derive(Debug, Clone, Copy, PartialEq, Eq)]
pub struct Opening {
    pub doing: OpenAction,
    /// The partition, once it is known.
    pub range: (u32, u32),
}

impl Opening {
    /// The partition found lies within what addresses can name.
    pub open spec fn addressable(input: OpenInput) -> bool {
        input matches OpenInput::PartitionSearched(Ok(Some(partition))) ==> partition.0
            + partition.1 <= u32::MAX
    }

    /// What follows an input. An input that was not waited for changes nothing.
    pub open spec fn after(self, input: OpenInput) -> Opening {
        match (self.doing, input) {
            (OpenAction::ReadTable, OpenInput::TableRead(ok)) => Opening {
                doing: if ok {
                    OpenAction::SearchPartition
                } else {
                    OpenAction::Fail(Error::PartitionTable)
                },
                ..self
            },
            (OpenAction::SearchPartition, OpenInput::PartitionSearched(Err(()))) => Opening {
                doing: OpenAction::Fail(Error::PartitionTable),
                ..self
            },
            (OpenAction::SearchPartition, OpenInput::PartitionSearched(Ok(None))) => Opening {
                doing: OpenAction::Fail(Error::MissingPartition),
                ..self
            },
            (OpenAction::SearchPartition, OpenInput::PartitionSearched(Ok(Some(p)))) => Opening {
                doing: OpenAction::ReadMagic { offset: p.0 },
                range: (p.0, (p.0 + p.1) as u32),
            },
            (OpenAction::ReadMagic { .. }, OpenInput::MagicRead(None)) => Opening {
                doing: OpenAction::Fail(Error::Storage),
                ..self
            },
            (OpenAction::ReadMagic { .. }, OpenInput::MagicRead(Some(magic))) => Opening {
                doing: if magic == (0x43u8, 0x4cu8, 0x44u8, 0x53u8) {
                    OpenAction::Erase { start: self.range.0, end: self.range.1 }
                } else {
                    OpenAction::Configure { start: self.range.0, end: self.range.1 }
                },
                ..self
            },
            (OpenAction::Erase { .. }, OpenInput::Erased(ok)) => Opening {
                doing: if ok {
                    OpenAction::Configure { start: self.range.0, end: self.range.1 }
                } else {
                    OpenAction::Fail(Error::Storage)
                },
                ..self
            },
            (OpenAction::Configure { .. }, OpenInput::Configured(ok)) => Opening {
                doing: if ok {
                    OpenAction::Load
                } else {
                    OpenAction::Fail(Error::PartitionTooSmall)
                },
                ..self
            },
            (OpenAction::Load, OpenInput::Loaded(Ok(settings))) => Opening {
                doing: OpenAction::Ready(settings),
                ..self
            },
            (OpenAction::Load, OpenInput::Loaded(Err(()))) => Opening {
                doing: OpenAction::EraseAll,
                ..self
            },
            (OpenAction::EraseAll, OpenInput::Reset(ok)) => Opening {
                doing: if ok {
                    OpenAction::Ready(None)
                } else {
                    OpenAction::Fail(Error::Storage)
                },
                ..self
            },
            _ => self,
        }
    }

    /// A store that is about to be opened.
    pub fn new() -> (opening: Self)
        ensures
            opening == (Opening { doing: OpenAction::ReadTable, range: (0, 0) }),
    {
        Opening { doing: OpenAction::ReadTable, range: (0, 0) }
    }

    /// Take one step.
    pub fn step(&mut self, input: OpenInput) -> (action: OpenAction)
        requires
            Opening::addressable(input),
        ensures
            *final(self) == old(self).after(input),
            action == final(self).doing,
    {
        match (self.doing, input) {
            (OpenAction::ReadTable, OpenInput::TableRead(ok)) => {
                self.doing = if ok {
                    OpenAction::SearchPartition
                } else {
                    OpenAction::Fail(Error::PartitionTable)
                };
            },
            (OpenAction::SearchPartition, OpenInput::PartitionSearched(found)) => match found {
                Err(()) => {
                    self.doing = OpenAction::Fail(Error::PartitionTable);
                },
                Ok(None) => {
                    self.doing = OpenAction::Fail(Error::MissingPartition);
                },
                Ok(Some(partition)) => {
                    self.range = (partition.0, partition.0 + partition.1);
                    self.doing = OpenAction::ReadMagic { offset: partition.0 };
                },
            },
            (OpenAction::ReadMagic { .. }, OpenInput::MagicRead(read)) => match read {
                None => {
                    self.doing = OpenAction::Fail(Error::Storage);
                },
                Some(magic) => {
                    self.doing = if magic.0 == LEGACY_MAGIC[0] && magic.1 == LEGACY_MAGIC[1]
                        && magic.2 == LEGACY_MAGIC[2] && magic.3 == LEGACY_MAGIC[3] {
                        OpenAction::Erase { start: self.range.0, end: self.range.1 }
                    } else {
                        OpenAction::Configure { start: self.range.0, end: self.range.1 }
                    };
                },
            },
            (OpenAction::Erase { .. }, OpenInput::Erased(ok)) => {
                self.doing = if ok {
                    OpenAction::Configure { start: self.range.0, end: self.range.1 }
                } else {
                    OpenAction::Fail(Error::Storage)
                };
            },
            (OpenAction::Configure { .. }, OpenInput::Configured(ok)) => {
                self.doing = if ok {
                    OpenAction::Load
                } else {
                    OpenAction::Fail(Error::PartitionTooSmall)
                };
            },
            (OpenAction::Load, OpenInput::Loaded(loaded)) => {
                self.doing = match loaded {
                    Ok(settings) => OpenAction::Ready(settings),
                    Err(()) => OpenAction::EraseAll,
                };
            },
            (OpenAction::EraseAll, OpenInput::Reset(ok)) => {
                self.doing = if ok {
                    OpenAction::Ready(None)
                } else {
                    OpenAction::Fail(Error::Storage)
                };
            },
            _ => {},
        }
        self.doing
    }
}

/// The settings in stored bytes, if there are any and they are intact.
pub open spec fn settings_in(value: Option<Seq<u8>>) -> Option<DisplaySettings> {
    match value {
        Some(bytes) => settings::decoded_settings(bytes),
        None => None,
    }
}

/// The settings in stored bytes. Damaged bytes count as none.
pub fn loaded_settings(value: Option<[u8; SETTINGS_VALUE_SIZE]>) -> (loaded: Option<
    DisplaySettings,
>)
    ensures
        loaded == settings_in(
            match value {
                Some(bytes) => Some(bytes@),
                None => None,
            },
        ),
{
    match value {
        Some(bytes) => settings::decode_settings(&bytes),
        None => None,
    }
}

/// A store that is open.
#[derive(Debug, Clone, Copy, PartialEq, Eq, Structural)]
pub struct SettingsStore {
    pub last_saved: Option<DisplaySettings>,
}

impl SettingsStore {
    /// What came of saving.
    pub open spec fn outcome(
        self,
        settings: DisplaySettings,
        stored: bool,
        loaded: Result<Option<DisplaySettings>, ()>,
    ) -> Result<bool, Error> {
        if self.last_saved == Some(settings) {
            Ok(false)
        } else if !stored || loaded is Err {
            Err(Error::Storage)
        } else if loaded != Ok::<Option<DisplaySettings>, ()>(Some(settings)) {
            Err(Error::Verification)
        } else {
            Ok(true)
        }
    }

    /// The store after saving.
    pub open spec fn after_save(
        self,
        settings: DisplaySettings,
        stored: bool,
        loaded: Result<Option<DisplaySettings>, ()>,
    ) -> SettingsStore {
        if self.outcome(settings, stored, loaded) == Ok::<bool, Error>(true) {
            SettingsStore { last_saved: Some(settings) }
        } else {
            self
        }
    }

    /// Settings must be stored.
    pub open spec fn needs_save(self, settings: DisplaySettings) -> bool {
        self.last_saved != Some(settings)
    }

    /// A store that was opened with these settings in it.
    pub fn new(settings: Option<DisplaySettings>) -> (store: Self)
        ensures
            store == (SettingsStore { last_saved: settings }),
    {
        SettingsStore { last_saved: settings }
    }

    /// Whether settings differ from the last verified ones and must be stored.
    pub fn save_needed(&self, settings: DisplaySettings) -> (needed: bool)
        ensures
            needed == (self.last_saved != Some(settings)),
            needed == self.needs_save(settings),
    {
        match self.last_saved {
            Some(last_saved) => last_saved != settings,
            None => true,
        }
    }

    /// Finish saving: the settings count as saved once they were stored and
    /// read back. `stored` tells whether storing succeeded, `loaded` what
    /// reading gave.
    pub fn save(
        &mut self,
        settings: DisplaySettings,
        stored: bool,
        loaded: Result<Option<DisplaySettings>, ()>,
    ) -> (result: Result<bool, Error>)
        ensures
            result == (if old(self).last_saved == Some(settings) {
                Ok::<bool, Error>(false)
            } else if !stored || loaded is Err {
                Err(Error::Storage)
            } else if loaded != Ok::<Option<DisplaySettings>, ()>(Some(settings)) {
                Err(Error::Verification)
            } else {
                Ok(true)
            }),
            *final(self) == if result == Ok::<bool, Error>(true) {
                SettingsStore { last_saved: Some(settings) }
            } else {
                *old(self)
            },
            result == old(self).outcome(settings, stored, loaded),
            *final(self) == old(self).after_save(settings, stored, loaded),
    {
        if !self.save_needed(settings) {
            return Ok(false);
        }
        if !stored {
            return Err(Error::Storage);
        }
        match loaded {
            Err(()) => Err(Error::Storage),
            Ok(None) => Err(Error::Verification),
            Ok(Some(read)) => {
                if read != settings {
                    return Err(Error::Verification);
                }
                self.last_saved = Some(settings);
                Ok(true)
            },
        }
    }
}

/// What is stored is what is loaded, and it fits the buffer with its key.
pub proof fn law_stored_settings_load(settings: DisplaySettings)
    requires
        settings.is_valid(),
    ensures
        settings_in(Some(settings::encoded_settings(settings))) == Some(settings),
        1 + settings::encoded_settings(settings).len() <= DATA_BUFFER_SIZE,
{
    settings::law_settings_round_trip(settings);
}

/// Where opening a store has got to after some inputs.
pub open spec fn opened(inputs: Seq<OpenInput>) -> Opening
    decreases inputs.len(),
{
    if inputs.len() == 0 {
        Opening { doing: OpenAction::ReadTable, range: (0, 0) }
    } else {
        opened(inputs.drop_last()).after(inputs.last())
    }
}

/// Only the partition that was found is looked into, erased or turned into a
/// map.
pub proof fn law_only_the_partition_is_touched(inputs: Seq<OpenInput>)
    ensures
        opened(inputs).doing matches OpenAction::Erase { start, end } ==> (start, end) == opened(
            inputs,
        ).range,
        opened(inputs).doing matches OpenAction::Configure { start, end } ==> (start, end)
            == opened(inputs).range,
        opened(inputs).doing matches OpenAction::ReadMagic { offset } ==> offset == opened(
            inputs,
        ).range.0,
    decreases inputs.len(),
{
    if inputs.len() > 0 {
        law_only_the_partition_is_touched(inputs.drop_last());
    }
}

/// Disposable settings do not keep the instrument from starting: where the map
/// cannot be read it is erased, and the store then opens empty.
pub proof fn law_unreadable_settings_are_dropped(opening: Opening)
    requires
        opening.doing is Load,
    ensures
        opening.after(OpenInput::Loaded(Err(()))).doing is EraseAll,
        opening.after(OpenInput::Loaded(Err(()))).after(OpenInput::Reset(true)).doing
            == OpenAction::Ready(None),
{
}

/// Settings count as saved exactly when they had to be stored, were stored, and
/// were read back as they are. They need no saving then. What is saved already is
/// left alone, and after a failure the store believes what it did before.
pub proof fn law_saved_means_read_back(
    store: SettingsStore,
    settings: DisplaySettings,
    stored: bool,
    loaded: Result<Option<DisplaySettings>, ()>,
)
    ensures
        ({
            let outcome = store.outcome(settings, stored, loaded);
            let after = store.after_save(settings, stored, loaded);
            &&& outcome == Ok::<bool, Error>(true) <==> store.needs_save(settings) && stored
                && loaded == Ok::<Option<DisplaySettings>, ()>(Some(settings))
            &&& outcome == Ok::<bool, Error>(false) <==> !store.needs_save(settings)
            &&& outcome is Ok <==> !after.needs_save(settings)
            &&& outcome is Err ==> after == store
            &&& outcome == Err::<bool, Error>(Error::Storage) <==> store.needs_save(settings) && (
            !stored || loaded is Err)
        }),
{
}

/// A store opens on the partition that was found and no further: its beginning is
/// looked at, an earlier layout is erased from it, it is made a map of, and what
/// the map holds is what the store opens with.
pub proof fn law_stores_open_on_their_partition(
    offset: u32,
    size: u32,
    magic: (u8, u8, u8, u8),
    settings: Option<DisplaySettings>,
)
    requires
        offset + size <= u32::MAX,
    ensures
        ({
            let start = Opening { doing: OpenAction::ReadTable, range: (0, 0) };
            let end = (offset + size) as u32;
            let searching = start.after(OpenInput::TableRead(true));
            let looking = searching.after(OpenInput::PartitionSearched(Ok(Some((offset, size)))));
            let looked = looking.after(OpenInput::MagicRead(Some(magic)));
            let earlier = magic == (67u8, 76u8, 68u8, 83u8);
            let cleared = if earlier {
                looked.after(OpenInput::Erased(true))
            } else {
                looked
            };
            let mapped = cleared.after(OpenInput::Configured(true));
            &&& searching.doing == OpenAction::SearchPartition
            &&& looking.doing == (OpenAction::ReadMagic { offset })
            &&& earlier ==> looked.doing == (OpenAction::Erase { start: offset, end })
            &&& cleared.doing == (OpenAction::Configure { start: offset, end })
            &&& mapped.doing == OpenAction::Load
            &&& mapped.after(OpenInput::Loaded(Ok(settings))).doing == OpenAction::Ready(settings)
        }),
{
}

/// Whatever goes wrong keeps the store shut, and each failure is told by what
/// went wrong.
pub proof fn law_failures_keep_the_store_shut(opening: Opening)
    ensures
        opening.doing is ReadTable ==> opening.after(OpenInput::TableRead(false)).doing
            == OpenAction::Fail(Error::PartitionTable),
        opening.doing is SearchPartition ==> opening.after(
            OpenInput::PartitionSearched(Err(())),
        ).doing == OpenAction::Fail(Error::PartitionTable),
        opening.doing is SearchPartition ==> opening.after(
            OpenInput::PartitionSearched(Ok(None)),
        ).doing == OpenAction::Fail(Error::MissingPartition),
        opening.doing is ReadMagic ==> opening.after(OpenInput::MagicRead(None)).doing
            == OpenAction::Fail(Error::Storage),
        opening.doing is Erase ==> opening.after(OpenInput::Erased(false)).doing
            == OpenAction::Fail(Error::Storage),
        opening.doing is Configure ==> opening.after(OpenInput::Configured(false)).doing
            == OpenAction::Fail(Error::PartitionTooSmall),
        opening.doing is EraseAll ==> opening.after(OpenInput::Reset(false)).doing
            == OpenAction::Fail(Error::Storage),
        forall|input: OpenInput|
            opening.doing is Fail || opening.doing is Ready ==> (#[trigger] opening.after(input))
                == opening,
{
}

} // verus!
