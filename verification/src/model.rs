//! SysML v2 model content as the library reads it: elements of a commit
//! (each with its `@id`, `@type`, optional `name` and remaining JSON-LD
//! members) and the snapshot that holds them.
use vstd::prelude::*;

use crate::json::{get_member, member_get, JsonValue};
use crate::text::str_chars;

verus! {

/// One model element.
pub struct Element {
    /// `@id`.
    pub id: String,
    /// `@type`: the KerML/SysML metaclass name.
    pub ty: String,
    pub name: Option<String>,
    /// Every other member, in document order.
    pub fields: Vec<(String, JsonValue)>,
}

impl Element {
    pub fn id(&self) -> (r: &str)
        ensures
            r@ == self.id@,
    {
        self.id.as_str()
    }

    pub fn ty(&self) -> (r: &str)
        ensures
            r@ == self.ty@,
    {
        self.ty.as_str()
    }

    pub fn name(&self) -> (r: Option<&str>)
        ensures
            match r {
                Some(s) => self.name matches Some(n) && n@ == s@,
                None => self.name is None,
            },
    {
        match &self.name {
            Some(n) => Some(n.as_str()),
            None => None,
        }
    }

    /// The member named `key`, if the element has one.
    pub fn get(&self, key: &str) -> (r: Option<&JsonValue>)
        ensures
            match r {
                Some(v) => member_get(self.fields@, key@) == Some(*v),
                None => member_get(self.fields@, key@) is None,
            },
    {
        let k = str_chars(key);
        get_member(&self.fields, k.as_slice())
    }
}

/// Every element of one commit of one project, with the commit's root
/// element ids and content hash.
pub struct ModelSnapshot {
    pub project_id: String,
    pub commit_id: String,
    pub roots: Vec<String>,
    pub content_hash: String,
    pub elements: Vec<Element>,
}

} // verus!
