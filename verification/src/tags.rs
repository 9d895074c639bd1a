//! Tags and tag manifests: named groups of workspaces / apps / peers,
//! with the per-tag preferences (name, output, default marks) that the
//! workspace workers consult.
use vstd::prelude::*;
use vstd::string::*;
use crate::order::string_eq;

verus! {

/// A tag manifest: a named group of apps with per-tag defaults.
#[derive(Debug, Clone, PartialEq, Eq)]
pub struct TagManifest {
    /// Tag name (used as the workspace label for its apps).
    pub name: String,
    /// App ids (window classes) the tag groups.
    pub apps: Vec<String>,
    /// Comma-separated marks every window of the tag's apps starts with.
    pub marks_default: String,
    /// Output the tag's workspaces should live on.
    pub output: Option<String>,
}

impl Default for TagManifest {
    fn default() -> (r: Self)
        ensures
            r.name@ == Seq::<char>::empty(),
            r.apps@.len() == 0,
            r.marks_default@ == Seq::<char>::empty(),
            r.output is None,
    {
        TagManifest { name: String::new(), apps: Vec::new(), marks_default: String::new(), output: None }
    }
}

/// How a tag's members are chosen.
#[derive(Debug, Clone, Copy, PartialEq, Eq, Structural)]
pub enum TagFlavor {
    /// Members picked by the operator.
    Manual,
    /// Members derived by a rule.
    Smart,
}

/// One member of a tag.
#[derive(Debug, Clone, PartialEq, Eq)]
pub enum TagMember {
    Workspace { num: i32 },
    App { app_id: String },
    Peer { hostname: String },
}

/// A named group of workspaces, apps and peers.
#[derive(Debug, Clone, PartialEq, Eq)]
pub struct Tag {
    pub name: String,
    pub flavor: TagFlavor,
    pub members: Vec<TagMember>,
    pub group_color: Option<String>,
    pub preferred_output: Option<String>,
    pub default_layout: Option<String>,
    pub autostart: Vec<String>,
}

/// Why a tag could not be added.
#[derive(Debug, Clone, PartialEq, Eq, Structural)]
pub enum TagStoreError {
    /// A tag of that name is already in the store.
    DuplicateName,
}

/// The operator's tags, in the order they were added.
#[derive(Debug, Clone, PartialEq, Eq)]
pub struct TagStore {
    pub tags: Vec<Tag>,
}

impl Default for TagStore {
    fn default() -> (r: Self)
        ensures
            r.tags@.len() == 0,
    {
        TagStore { tags: Vec::new() }
    }
}

/// Some tag of `tags` is named `name`.
pub open spec fn has_tag_named(tags: Seq<Tag>, name: Seq<char>) -> bool {
    exists|i: int| 0 <= i < tags.len() && #[trigger] tags[i].name@ == name
}

impl TagStore {
    /// Append `tag`; a second tag of the same name is refused and leaves
    /// the store unchanged.
    pub fn add(&mut self, tag: Tag) -> (r: Result<(), TagStoreError>)
        ensures
            has_tag_named(old(self).tags@, tag.name@) ==> r == Err::<(), TagStoreError>(
                TagStoreError::DuplicateName,
            ) && final(self).tags@ == old(self).tags@,
            !has_tag_named(old(self).tags@, tag.name@) ==> r is Ok && final(self).tags@ == old(
                self,
            ).tags@.push(tag),
    {
        let mut i: usize = 0;
        while i < self.tags.len()
            invariant
                i <= self.tags.len(),
                self.tags@ == old(self).tags@,
                forall|j: int| 0 <= j < i ==> #[trigger] self.tags@[j].name@ != tag.name@,
            decreases self.tags.len() - i,
        {
            if string_eq(self.tags[i].name.as_str(), tag.name.as_str()) {
                return Err(TagStoreError::DuplicateName);
            }
            i += 1;
        }
        self.tags.push(tag);
        Ok(())
    }
}

} // verus!
