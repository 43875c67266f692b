//! The submission forms the engine accepts, already decoded to plain values.
use vstd::prelude::*;

verus! {

/// Where a paste's content is to live.
#[derive(Clone, Copy, Debug, PartialEq, Eq, Structural)]
pub enum ValidDestination {
    /// The primary object store.
    DataStore,
    /// The alternate upload backend.
    GDrive,
}

/// A paste submission from the web form.
pub struct PasteForm {
    pub csrf_token: String,
    pub token: String,
    pub content: String,
    pub title: Option<String>,
    pub tags: Option<String>,
    pub format: String,
    pub destination: ValidDestination,
}

/// A deletion request from the web form.
pub struct PasteDeleteForm {
    pub csrf_token: String,
}

/// A paste submission through the programmatic interface; such pastes always
/// go to the primary store.
pub struct PasteAPIForm {
    pub content: String,
    pub title: Option<String>,
    pub tags: Option<String>,
    pub format: String,
}

/// A deletion request through the programmatic interface.
pub struct PasteAPIDeleteForm {
    pub paste_id: String,
}

impl PasteAPIForm {
    /// Widen a programmatic submission to the full form, bound for the
    /// primary store.
    pub fn into_paste_form(self) -> (r: PasteForm)
        ensures
            r.content == self.content,
            r.title == self.title,
            r.tags == self.tags,
            r.format == self.format,
            r.destination == ValidDestination::DataStore,
            r.csrf_token@ == Seq::<char>::empty(),
            r.token@ == Seq::<char>::empty(),
    {
        PasteForm {
            csrf_token: String::new(),
            token: String::new(),
            content: self.content,
            title: self.title,
            tags: self.tags,
            format: self.format,
            destination: ValidDestination::DataStore,
        }
    }
}

} // verus!
