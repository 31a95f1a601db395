//! Nodes that every environment starts with.

use vstd::prelude::*;

use crate::env::local_node::LocalNode;
use crate::text::str_eq;

verus! {

broadcast use vstd::string::group_string_axioms;

/// All environments are created with the following Nodes before all other
/// Nodes. This can be seen as a set of implicitly imported Nodes.
#[derive(Clone, Copy, Debug, PartialEq, Eq, Structural)]
pub enum EnvPrelude {
    SelfEnv,
    Designation,
    TellHandler,
    Reserved3,
    Reserved4,
    Reserved5,
    Reserved6,
    Reserved7,
    Reserved8,
    Reserved9,
}

/// The local id of each prelude node.
pub open spec fn prelude_id(p: EnvPrelude) -> u64 {
    match p {
        EnvPrelude::SelfEnv => 0,
        EnvPrelude::Designation => 1,
        EnvPrelude::TellHandler => 2,
        EnvPrelude::Reserved3 => 3,
        EnvPrelude::Reserved4 => 4,
        EnvPrelude::Reserved5 => 5,
        EnvPrelude::Reserved6 => 6,
        EnvPrelude::Reserved7 => 7,
        EnvPrelude::Reserved8 => 8,
        EnvPrelude::Reserved9 => 9,
    }
}

/// The prelude node with a given local id, if any.
pub open spec fn prelude_of_id(id: u64) -> Option<EnvPrelude> {
    if id == 0 {
        Some(EnvPrelude::SelfEnv)
    } else if id == 1 {
        Some(EnvPrelude::Designation)
    } else if id == 2 {
        Some(EnvPrelude::TellHandler)
    } else if id == 3 {
        Some(EnvPrelude::Reserved3)
    } else if id == 4 {
        Some(EnvPrelude::Reserved4)
    } else if id == 5 {
        Some(EnvPrelude::Reserved5)
    } else if id == 6 {
        Some(EnvPrelude::Reserved6)
    } else if id == 7 {
        Some(EnvPrelude::Reserved7)
    } else if id == 8 {
        Some(EnvPrelude::Reserved8)
    } else if id == 9 {
        Some(EnvPrelude::Reserved9)
    } else {
        None
    }
}

/// Whether a prelude node is one of the reserved ones.
pub open spec fn is_reserved(p: EnvPrelude) -> bool {
    prelude_id(p) >= 3
}

/// The name of each prelude node.
pub open spec fn prelude_name(p: EnvPrelude) -> Seq<char> {
    match p {
        EnvPrelude::SelfEnv => "self_env"@,
        EnvPrelude::Designation => "amlang_designator"@,
        EnvPrelude::TellHandler => "tell_handler"@,
        _ => "RESERVED"@,
    }
}

impl EnvPrelude {
    pub fn local(&self) -> (res: LocalNode)
        ensures
            res.0 == prelude_id(*self),
    {
        match self {
            Self::SelfEnv => LocalNode::new(0),
            Self::Designation => LocalNode::new(1),
            Self::TellHandler => LocalNode::new(2),
            Self::Reserved3 => LocalNode::new(3),
            Self::Reserved4 => LocalNode::new(4),
            Self::Reserved5 => LocalNode::new(5),
            Self::Reserved6 => LocalNode::new(6),
            Self::Reserved7 => LocalNode::new(7),
            Self::Reserved8 => LocalNode::new(8),
            Self::Reserved9 => LocalNode::new(9),
        }
    }

    pub fn name(&self) -> (res: &'static str)
        ensures
            res@ == prelude_name(*self),
    {
        match self {
            Self::SelfEnv => "self_env",
            Self::Designation => "amlang_designator",
            Self::TellHandler => "tell_handler",
            Self::Reserved3
            | Self::Reserved4
            | Self::Reserved5
            | Self::Reserved6
            | Self::Reserved7
            | Self::Reserved8
            | Self::Reserved9 => "RESERVED",
        }
    }

    /// The prelude node with the given name; reserved nodes have no name
    /// that finds them.
    pub fn from_name(name: &str) -> (res: Option<Self>)
        ensures
            name@ == "self_env"@ ==> res == Some(EnvPrelude::SelfEnv),
            name@ == "amlang_designator"@ ==> res == Some(EnvPrelude::Designation),
            name@ == "tell_handler"@ ==> res == Some(EnvPrelude::TellHandler),
            name@ != "self_env"@ && name@ != "amlang_designator"@ && name@ != "tell_handler"@
                ==> res is None,
    {
        proof {
            lemma_names_distinct();
        }
        if str_eq(name, "self_env") {
            Some(Self::SelfEnv)
        } else if str_eq(name, "amlang_designator") {
            Some(Self::Designation)
        } else if str_eq(name, "tell_handler") {
            Some(Self::TellHandler)
        } else {
            None
        }
    }
}

/// The local node of every prelude node leads back to it.
pub proof fn lemma_local_as_prelude(p: EnvPrelude)
    ensures
        prelude_of_id(prelude_id(p)) == Some(p),
{
}

/// The prelude nodes are exactly the local ids below ten.
pub proof fn lemma_prelude_ids(id: u64)
    ensures
        prelude_of_id(id) is Some <==> id < 10,
        prelude_of_id(id) matches Some(p) ==> prelude_id(p) == id,
{
}

/// Every named (non-reserved) prelude node is found again by its name.
pub proof fn lemma_name_from_name(p: EnvPrelude)
    requires
        !is_reserved(p),
    ensures
        p == EnvPrelude::SelfEnv ==> prelude_name(p) == "self_env"@,
        p == EnvPrelude::Designation ==> prelude_name(p) == "amlang_designator"@
            && prelude_name(p) != "self_env"@,
        p == EnvPrelude::TellHandler ==> prelude_name(p) == "tell_handler"@
            && prelude_name(p) != "self_env"@ && prelude_name(p) != "amlang_designator"@,
{
    lemma_names_distinct();
}

/// The names of the prelude nodes are pairwise distinct.
pub proof fn lemma_names_distinct()
    ensures
        "self_env"@ != "amlang_designator"@,
        "self_env"@ != "tell_handler"@,
        "amlang_designator"@ != "tell_handler"@,
        "RESERVED"@ != "self_env"@,
        "RESERVED"@ != "amlang_designator"@,
        "RESERVED"@ != "tell_handler"@,
{
    reveal_strlit("RESERVED");
    reveal_strlit("self_env");
    reveal_strlit("amlang_designator");
    reveal_strlit("tell_handler");
    assert("self_env"@.len() != "amlang_designator"@.len());
    assert("self_env"@.len() != "tell_handler"@.len());
    assert("amlang_designator"@.len() != "tell_handler"@.len());
    assert("RESERVED"@[0] != "self_env"@[0]);
    assert("RESERVED"@.len() != "amlang_designator"@.len());
    assert("RESERVED"@.len() != "tell_handler"@.len());
}

/// No reserved prelude node is found by its name.
pub proof fn lemma_reserved_name(p: EnvPrelude)
    requires
        is_reserved(p),
    ensures
        prelude_name(p) == "RESERVED"@,
        prelude_name(p) != "self_env"@,
        prelude_name(p) != "amlang_designator"@,
        prelude_name(p) != "tell_handler"@,
{
    lemma_names_distinct();
}

} // verus!
