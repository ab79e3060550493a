//! Session continuity: whether an invocation starts from a saved session,
//! and whether it saves its own. The session itself is a run of bytes that
//! the engine makes and reads; here it is only moved.

use crate::error::IoError;
use std::path::PathBuf;
use vstd::prelude::*;

verus! {

/// How an invocation treats sessions.
#[derive(Clone, Copy, Debug, PartialEq, Eq)]
pub enum SessionMode<'a> {
    /// Start afresh and save nothing.
    NoSession,
    /// Start from the session at the path, which must be there.
    LoadOnly(&'a PathBuf),
    /// Start afresh and save the session at the path.
    SaveOnly(&'a PathBuf),
    /// Start from the session at `load`, which must be there, and save at
    /// `save`.
    LoadAndSave { load: &'a PathBuf, save: &'a PathBuf },
    /// Start from the session at the path if there is one, afresh if there
    /// is none, and save at the same path.
    PersistBoth(&'a PathBuf),
}

/// What reading a session file gave.
#[derive(Debug, PartialEq, Eq)]
pub enum SessionRead {
    /// The session that the file holds.
    Found(Vec<u8>),
    /// There is no file at the path.
    Missing,
    /// There is a file, but it could not be read, or what it holds is no
    /// session.
    Unreadable,
}

/// The mode that three optional paths ask for. A path to persist at stands
/// for both loading and saving, and leaves the other two without effect.
pub open spec fn mode_of<'a>(
    load: Option<&'a PathBuf>,
    save: Option<&'a PathBuf>,
    persist: Option<&'a PathBuf>,
) -> SessionMode<'a> {
    match (persist, load, save) {
        (Some(path), _, _) => SessionMode::PersistBoth(path),
        (None, Some(load), Some(save)) => SessionMode::LoadAndSave { load, save },
        (None, Some(load), None) => SessionMode::LoadOnly(load),
        (None, None, Some(save)) => SessionMode::SaveOnly(save),
        (None, None, None) => SessionMode::NoSession,
    }
}

/// Decides the mode from the three paths of the command line.
pub fn session_mode<'a>(
    load: Option<&'a PathBuf>,
    save: Option<&'a PathBuf>,
    persist: Option<&'a PathBuf>,
) -> (mode: SessionMode<'a>)
    ensures
        mode == mode_of(load, save, persist),
{
    match (persist, load, save) {
        (Some(path), _, _) => SessionMode::PersistBoth(path),
        (None, Some(load), Some(save)) => SessionMode::LoadAndSave { load, save },
        (None, Some(load), None) => SessionMode::LoadOnly(load),
        (None, None, Some(save)) => SessionMode::SaveOnly(save),
        (None, None, None) => SessionMode::NoSession,
    }
}

impl<'a> SessionMode<'a> {
    /// The path to read a session from before generation, if any.
    pub open spec fn load_from(self) -> Option<&'a PathBuf> {
        match self {
            SessionMode::LoadOnly(path) => Some(path),
            SessionMode::LoadAndSave { load, .. } => Some(load),
            SessionMode::PersistBoth(path) => Some(path),
            _ => None,
        }
    }

    /// The path to write the session to after generation, if any.
    pub open spec fn save_to(self) -> Option<&'a PathBuf> {
        match self {
            SessionMode::SaveOnly(path) => Some(path),
            SessionMode::LoadAndSave { save, .. } => Some(save),
            SessionMode::PersistBoth(path) => Some(path),
            _ => None,
        }
    }

    /// Whether a missing session file is no failure.
    pub open spec fn forgives_missing(self) -> bool {
        self is PersistBoth
    }

    /// The state that generation starts from, for what reading the session
    /// file gave: the session that was found, as it is, or `None` for a fresh
    /// start. A mode that loads nothing starts afresh whatever `read` is. A
    /// missing file is a fresh start where the mode forgives it and a failure
    /// elsewhere; a file that could not be read is a failure in every mode.
    pub open spec fn start_of(self, read: SessionRead) -> Result<Option<Vec<u8>>, IoError> {
        if self.load_from() is None {
            Ok(None)
        } else {
            match read {
                SessionRead::Found(session) => Ok(Some(session)),
                SessionRead::Missing => if self.forgives_missing() {
                    Ok(None)
                } else {
                    Err(IoError::SessionMissing)
                },
                SessionRead::Unreadable => Err(IoError::SessionUnreadable),
            }
        }
    }

    /// How the invocation ends, for whether the session was written. A mode
    /// that saves fails where the session was not written; by then the
    /// generated text is out, and the failure is reported beside it. A mode
    /// that saves nothing ends well whatever `written` is.
    pub open spec fn end_of(self, written: bool) -> Result<(), IoError> {
        if self.save_to() is Some && !written {
            Err(IoError::SessionNotSaved)
        } else {
            Ok(())
        }
    }

    /// The path to read a session from before generation, if any.
    pub fn load_path(&self) -> (path: Option<&'a PathBuf>)
        ensures
            path == self.load_from(),
    {
        match self {
            SessionMode::LoadOnly(path) => Some(*path),
            SessionMode::LoadAndSave { load, .. } => Some(*load),
            SessionMode::PersistBoth(path) => Some(*path),
            _ => None,
        }
    }

    /// The path to write the session to after generation, if any.
    pub fn save_path(&self) -> (path: Option<&'a PathBuf>)
        ensures
            path == self.save_to(),
    {
        match self {
            SessionMode::SaveOnly(path) => Some(*path),
            SessionMode::LoadAndSave { save, .. } => Some(*save),
            SessionMode::PersistBoth(path) => Some(*path),
            _ => None,
        }
    }

    /// Whether a missing session file is no failure.
    pub fn tolerates_missing(&self) -> (yes: bool)
        ensures
            yes == self.forgives_missing(),
    {
        match self {
            SessionMode::PersistBoth(_) => true,
            _ => false,
        }
    }

    /// Decides how generation starts, from what reading the session file
    /// gave.
    pub fn restore(&self, read: SessionRead) -> (start: Result<Option<Vec<u8>>, IoError>)
        ensures
            start == self.start_of(read),
    {
        if self.load_path().is_none() {
            return Ok(None);
        }
        match read {
            SessionRead::Found(session) => Ok(Some(session)),
            SessionRead::Missing => if self.tolerates_missing() {
                Ok(None)
            } else {
                Err(IoError::SessionMissing)
            },
            SessionRead::Unreadable => Err(IoError::SessionUnreadable),
        }
    }

    /// Decides how the invocation ends, from whether the session was written.
    pub fn conclude(&self, written: bool) -> (end: Result<(), IoError>)
        ensures
            end == self.end_of(written),
    {
        if self.save_path().is_some() && !written {
            Err(IoError::SessionNotSaved)
        } else {
            Ok(())
        }
    }
}

/// Persisting at a path is loading from it and saving to it, but for a
/// missing file: the paths are the same, and so is every start but the one
/// from a missing file, which persisting forgives.
pub proof fn lemma_persisting_is_loading_and_saving(path: &PathBuf, read: SessionRead)
    ensures
        SessionMode::PersistBoth(path).load_from() == (SessionMode::LoadAndSave {
            load: path,
            save: path,
        }).load_from(),
        SessionMode::PersistBoth(path).save_to() == (SessionMode::LoadAndSave {
            load: path,
            save: path,
        }).save_to(),
        read != SessionRead::Missing ==> SessionMode::PersistBoth(path).start_of(read) == (
        SessionMode::LoadAndSave { load: path, save: path }).start_of(read),
        SessionMode::PersistBoth(path).start_of(SessionRead::Missing) == Ok::<
            Option<Vec<u8>>,
            IoError,
        >(None),
        (SessionMode::LoadAndSave { load: path, save: path }).start_of(SessionRead::Missing)
            == Err::<Option<Vec<u8>>, IoError>(IoError::SessionMissing),
{
}

/// A session is only moved: the session that generation starts from is the
/// one that was found, byte for byte.
pub proof fn lemma_session_is_moved(mode: SessionMode, session: Vec<u8>)
    requires
        mode.load_from() is Some,
    ensures
        mode.start_of(SessionRead::Found(session)) == Ok::<Option<Vec<u8>>, IoError>(
            Some(session),
        ),
{
}

} // verus!
