//! Model documents: the actions that a host should be brought to.
//!
//! A model document is a TOML table with a single key, `action`, holding an
//! array of actions. Turning the bytes into a table is the TOML reader's
//! work; this module decides what a read table, or a failed read, amounts to.

pub mod err;
pub mod write;

use vstd::prelude::*;
use crate::model::err::{
    caret_line, framed, lemma_context_shows_target, numbered_line, shown_line, source_context,
    source_context_text, split_lines,
};
use crate::model::write::WriteTask;

verus! {

/// What an action does.
#[derive(Debug, Clone, PartialEq, Eq)]
pub enum Task {
    /// Write a file (`write` in a document).
    Write(WriteTask),
}

/// One step of a model: an optional name, whether it runs with raised
/// privileges (`become` in a document), and its task.
#[derive(Debug, Clone, PartialEq, Eq)]
pub struct Action {
    name: Option<String>,
    becomes: Option<bool>,
    task: Task,
}

impl Action {
    /// An action with the given name, privilege flag and task.
    pub fn new(name: Option<String>, becomes: Option<bool>, task: Task) -> (a: Action)
        ensures
            a.spec_name() == name,
            a.spec_becomes() == becomes,
            a.spec_task() == task,
    {
        Action { name, becomes, task }
    }

    pub closed spec fn spec_name(&self) -> Option<String> {
        self.name
    }

    pub closed spec fn spec_becomes(&self) -> Option<bool> {
        self.becomes
    }

    pub closed spec fn spec_task(&self) -> Task {
        self.task
    }

    /// The action's name, if it has one.
    pub fn name(&self) -> (n: Option<&String>)
        ensures
            n == match self.spec_name() {
                Some(s) => Some(&s),
                None => None::<&String>,
            },
    {
        match &self.name {
            Some(s) => Some(s),
            None => None,
        }
    }

    /// Whether the action runs with raised privileges, if the document says.
    pub fn becomes(&self) -> (b: Option<bool>)
        ensures
            b == self.spec_becomes(),
    {
        self.becomes
    }

    /// The action's task.
    pub fn task(&self) -> (t: &Task)
        ensures
            *t == self.spec_task(),
    {
        &self.task
    }
}

/// A document that the TOML reader refused: the reader's rendering of its
/// error, and the line and column (from zero) that it points at, if any.
#[derive(Debug, Clone)]
pub struct SyntaxFailure {
    pub rendering: String,
    pub position: Option<(usize, usize)>,
}

/// Why a model document was refused.
#[derive(Debug, Clone, PartialEq, Eq)]
pub enum LoadError {
    /// The TOML reader refused the document; `context` shows where.
    Syntax { context: String },
    /// The document holds no table entries.
    EmptyDocument,
    /// The document's keys, which are not exactly `action`.
    UnexpectedKeys { keys: Vec<String> },
}

/// The context message for a refused document: the lines around the error
/// where the reader gives its position, else `unknown`.
pub open spec fn syntax_context(from: Seq<u8>, failure: SyntaxFailure) -> Seq<char> {
    match failure.position {
        Some((line, col)) => source_context_text(
            from,
            failure.rendering@,
            line as nat,
            col as nat,
        ),
        None => "unknown"@,
    }
}

/// A refused document's context is exactly what `source_context` renders
/// for the reader's position, on every line including the first; `unknown`
/// only when the reader gives no position. So the context shows the line of
/// the error, numbered from one, with the caret line right after it.
pub proof fn lemma_syntax_context(from: Seq<u8>, failure: SyntaxFailure)
    ensures
        failure.position matches Some((line, col)) ==> syntax_context(from, failure)
            == source_context_text(from, failure.rendering@, line as nat, col as nat),
        failure.position matches Some((line, col)) ==> exists|before: Seq<char>, after: Seq<char>|
            #[trigger] framed(
                syntax_context(from, failure),
                before,
                numbered_line(
                    line as nat + 1,
                    shown_line(split_lines(from), line as int),
                ) + caret_line(col as nat, failure.rendering@),
                after,
            ),
        failure.position is None ==> syntax_context(from, failure) == "unknown"@,
{
    if let Some((line, col)) = failure.position {
        lemma_context_shows_target(from, failure.rendering@, line as nat, col as nat);
    }
}

/// The keys of a read document, in its order.
pub open spec fn document_keys(doc: Seq<(String, Vec<Action>)>) -> Seq<Seq<char>> {
    doc.map_values(|e: (String, Vec<Action>)| e.0@)
}

/// The characters of each string.
pub open spec fn string_views(strings: Seq<String>) -> Seq<Seq<char>> {
    strings.map_values(|s: String| s@)
}

/// Whether the reader's positions can be rendered (line numbers stay
/// representable).
pub open spec fn renderable(parsed: Result<Vec<(String, Vec<Action>)>, SyntaxFailure>) -> bool {
    parsed matches Err(f) ==> (f.position matches Some((line, col)) ==> line <= usize::MAX - 3)
}

/// The actions of a model document, given the document's bytes and what the
/// TOML reader made of them: a table from keys to arrays of actions, or a
/// failure. The table must hold exactly the key `action`.
pub fn load(from: &[u8], parsed: Result<Vec<(String, Vec<Action>)>, SyntaxFailure>) -> (res:
    Result<Vec<Action>, LoadError>)
    requires
        renderable(parsed),
    ensures
        match parsed {
            Err(f) => res matches Err(LoadError::Syntax { context }) && context@ == syntax_context(
                from@,
                f,
            ),
            Ok(doc) => if doc.len() == 0 {
                res == Err::<Vec<Action>, LoadError>(LoadError::EmptyDocument)
            } else if doc.len() == 1 && doc[0].0@ == "action"@ {
                res matches Ok(actions) && actions@ == doc[0].1@
            } else {
                res matches Err(LoadError::UnexpectedKeys { keys }) && string_views(keys@) == document_keys(doc@)
            },
        },
{
    match parsed {
        Err(f) => {
            let context = match f.position {
                Some((line, col)) => source_context(from, f.rendering.as_str(), line, col),
                None => {
                    let mut s = String::new();
                    s.append("unknown");
                    s
                },
            };
            Err(LoadError::Syntax { context })
        },
        Ok(doc) => {
            if doc.len() == 0 {
                return Err(LoadError::EmptyDocument);
            }
            if doc.len() == 1 && crate::text::str_eq(doc[0].0.as_str(), "action") {
                let mut doc = doc;
                let entry = doc.pop();
                match entry {
                    Some((_, actions)) => Ok(actions),
                    None => Err(LoadError::EmptyDocument),
                }
            } else {
                let mut keys: Vec<String> = Vec::new();
                let mut i: usize = 0;
                while i < doc.len()
                    invariant
                        i <= doc.len(),
                        keys.len() == i,
                        string_views(keys@) == document_keys(doc@).take(i as int),
                    decreases doc.len() - i,
                {
                    let k = doc[i].0.clone();
                    assert(k@ == document_keys(doc@)[i as int]);
                    let ghost before = keys@;
                    keys.push(k);
                    assert(keys@ == before.push(k));
                    assert forall|j: int| 0 <= j < i + 1 implies #[trigger] string_views(keys@)[j] == document_keys(doc@)[j] by {
                        assert(string_views(keys@)[j] == keys@[j]@);
                        if j < i {
                            assert(keys@[j] == before[j]);
                            assert(string_views(before)[j] == before[j]@);
                            assert(string_views(before)[j] == document_keys(
                                doc@,
                            ).take(i as int)[j]);
                        }
                    }
                    assert(string_views(keys@) =~= document_keys(doc@).take(
                        i + 1,
                    ));
                    i = i + 1;
                }
                assert(document_keys(doc@).take(doc.len() as int) =~= document_keys(doc@));
                Err(LoadError::UnexpectedKeys { keys })
            }
        },
    }
}

} // verus!
