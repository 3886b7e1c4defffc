//! What the command handlers say, and what they have in common.
use crate::text::{debug_text, decimal, decimal_text, join3};
use std::fmt::Debug;
use vstd::prelude::*;

verus! {

/// What can go wrong when data is asked for.
#[derive(Debug)]
pub enum DataErr<T: Debug> {
    /// No record has the id that was asked for.
    NotFoundById { id: T },
}

/// The message for a record that was not found, given its id as text.
pub open spec fn not_found_text(id: Seq<char>) -> Seq<char> {
    "No record found matching id "@ + id
}

impl<T: Debug> DataErr<T> {
    /// The error in words: that no record was found, and the id that was
    /// looked for.
    pub fn message(&self) -> (msg: String)
        ensures
            exists|id: Seq<char>| msg@ == not_found_text(id),
    {
        match self {
            DataErr::NotFoundById { id } => {
                let id_text = debug_text(id);
                let mut msg = String::from_str("No record found matching id ");
                msg.append(id_text.as_str());
                assert(msg@ == not_found_text(id_text@));
                msg
            },
        }
    }
}


/// The pattern that finds `query` anywhere in a text, for `LIKE` of SQL:
/// the query between two `%`.
pub fn like_pattern(query: &str) -> (pattern: String)
    ensures
        pattern@ == "%"@ + query@ + "%"@,
{
    join3("%", query, "%")
}


/// The line that announces that data with `description` is being added.
pub fn adding_data(description: &str) -> (line: String)
    ensures
        line@ == "Adding data w/ description '"@ + description@ + "'"@,
{
    join3("Adding data w/ description '", description, "'")
}

/// The line that reports the id under which data was added.
pub fn added_data(id: i64) -> (line: String)
    ensures
        line@ == "Added data with id "@ + decimal_text(id as int),
{
    let mut line = String::from_str("Added data with id ");
    line.append(decimal(id).as_str());
    line
}

/// The line that announces that the data with the id `id` is being deleted.
pub fn deleting_data(id: i64) -> (line: String)
    ensures
        line@ == "Deleting data w/ id '"@ + decimal_text(id as int) + "'"@,
{
    join3("Deleting data w/ id '", decimal(id).as_str(), "'")
}

/// The line that reports what came of deleting the data with the id `id`:
/// that it was deleted, or, where there was none, that the id is invalid.
pub fn deleted_data(id: i64, deleted: bool) -> (line: String)
    ensures
        deleted ==> line@ == "Deleted data with id "@ + decimal_text(id as int),
        !deleted ==> line@ == "Invalid id "@ + decimal_text(id as int),
{
    let mut line = if deleted {
        String::from_str("Deleted data with id ")
    } else {
        String::from_str("Invalid id ")
    };
    line.append(decimal(id).as_str());
    line
}

/// The line that announces the list of all data.
pub fn printing_all_data() -> (line: String)
    ensures
        line@ == "Printing all data"@,
{
    String::from_str("Printing all data")
}

/// The line that reports a new skill and the id it was created with.
pub fn skill_created(name: &str, id: i64) -> (line: String)
    ensures
        line@ == "New Skill, "@ + name@ + ", created with id "@ + decimal_text(id as int),
{
    let mut line = join3("New Skill, ", name, ", created with id ");
    line.append(decimal(id).as_str());
    line
}

/// The line that shows a skill that was found: its id, then its name.
pub fn skill_found(id: i64, name: &str) -> (line: String)
    ensures
        line@ == "Skill found: "@ + decimal_text(id as int) + ": "@ + name@,
{
    let mut line = join3("Skill found: ", decimal(id).as_str(), ": ");
    line.append(name);
    line
}

} // verus!
