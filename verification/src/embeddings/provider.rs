//! Errors of embedding providers and the text an embedding is made of.

use vstd::prelude::*;

use crate::text::{join_spec, push_str, string_of};

verus! {

/// Errors that can occur during embedding generation. Each carries its
/// description.
#[derive(Debug)]
pub enum EmbeddingError {
    /// The model could not be loaded.
    ModelLoad(String),
    /// An embedding could not be generated.
    Generation(String),
    /// The model was not initialized.
    NotInitialized,
    /// The input text was rejected.
    InvalidInput(String),
    /// An I/O error, by its message.
    Io(String),
    /// The model hub API failed.
    HfHub(String),
}

impl EmbeddingError {
    /// The message of an error.
    pub open spec fn message_spec(&self) -> Seq<char> {
        match self {
            EmbeddingError::ModelLoad(m) => "Failed to load embedding model: "@ + m@,
            EmbeddingError::Generation(m) => "Failed to generate embedding: "@ + m@,
            EmbeddingError::NotInitialized => "Model not initialized"@,
            EmbeddingError::InvalidInput(m) => "Invalid input text: "@ + m@,
            EmbeddingError::Io(m) => "IO error: "@ + m@,
            EmbeddingError::HfHub(m) => "HF Hub API error: "@ + m@,
        }
    }

    /// The message of an error, as displayed.
    pub fn message(&self) -> (r: String)
        ensures
            r@ == self.message_spec(),
    {
        let mut out: Vec<char> = Vec::new();
        match self {
            EmbeddingError::ModelLoad(m) => {
                push_str(&mut out, "Failed to load embedding model: ");
                push_str(&mut out, m.as_str());
            },
            EmbeddingError::Generation(m) => {
                push_str(&mut out, "Failed to generate embedding: ");
                push_str(&mut out, m.as_str());
            },
            EmbeddingError::NotInitialized => {
                push_str(&mut out, "Model not initialized");
            },
            EmbeddingError::InvalidInput(m) => {
                push_str(&mut out, "Invalid input text: ");
                push_str(&mut out, m.as_str());
            },
            EmbeddingError::Io(m) => {
                push_str(&mut out, "IO error: ");
                push_str(&mut out, m.as_str());
            },
            EmbeddingError::HfHub(m) => {
                push_str(&mut out, "HF Hub API error: ");
                push_str(&mut out, m.as_str());
            },
        }
        string_of(&out)
    }
}

/// The parts of the text an embedding is made of: the tags (if any), the
/// note and the context, each labelled.
pub open spec fn embedding_parts(
    tags: Seq<Seq<char>>,
    notes: Option<Seq<char>>,
    context: Option<Seq<char>>,
) -> Seq<Seq<char>> {
    let a: Seq<Seq<char>> = if tags.len() > 0 {
        seq!["Tags: "@ + join_spec(tags, ", "@)]
    } else {
        seq![]
    };
    let b = match notes {
        Some(n) => a.push("Note: "@ + n),
        None => a,
    };
    match context {
        Some(c) => b.push("Context: "@ + c),
        None => b,
    }
}

/// Append `parts` joined with `sep` to `out`.
fn push_joined(out: &mut Vec<char>, parts: &[String], sep: &str)
    ensures
        final(out)@ == old(out)@ + join_spec(parts@.map_values(|p: String| p@), sep@),
{
    let ghost start = out@;
    let ghost all = parts@.map_values(|p: String| p@);
    let mut i: usize = 0;
    while i < parts.len()
        invariant
            i <= parts.len(),
            all == parts@.map_values(|p: String| p@),
            out@ == start + join_spec(all.take(i as int), sep@),
        decreases parts.len() - i,
    {
        if i > 0 {
            push_str(out, sep);
        }
        push_str(out, parts[i].as_str());
        i = i + 1;
        proof {
            let t = all.take(i as int);
            assert(t.drop_last() == all.take(i - 1));
            assert(t.last() == parts@[i - 1]@);
            if i == 1 {
                assert(all.take(0).len() == 0);
            }
        }
    }
    proof {
        assert(all.take(i as int) == all);
    }
}

/// Simple text preparation for embedding: `Tags: a, b`, `Note: ...` and
/// `Context: ...`, each present part on its own line.
pub fn prepare_embedding_text(tags: &[String], notes: Option<&str>, context: Option<&str>) -> (r:
    String)
    ensures
        r@ == join_spec(
            embedding_parts(
                tags@.map_values(|t: String| t@),
                match notes {
                    Some(n) => Some(n@),
                    None => None,
                },
                match context {
                    Some(c) => Some(c@),
                    None => None,
                },
            ),
            "\n"@,
        ),
{
    let mut parts: Vec<String> = Vec::new();
    if tags.len() > 0 {
        let mut t: Vec<char> = Vec::new();
        push_str(&mut t, "Tags: ");
        push_joined(&mut t, tags, ", ");
        parts.push(string_of(&t));
    }
    match notes {
        Some(n) => {
            let mut t: Vec<char> = Vec::new();
            push_str(&mut t, "Note: ");
            push_str(&mut t, n);
            parts.push(string_of(&t));
        },
        None => {},
    }
    match context {
        Some(c) => {
            let mut t: Vec<char> = Vec::new();
            push_str(&mut t, "Context: ");
            push_str(&mut t, c);
            parts.push(string_of(&t));
        },
        None => {},
    }
    let mut out: Vec<char> = Vec::new();
    push_joined(&mut out, parts.as_slice(), "\n");
    proof {
        let tv = tags@.map_values(|t: String| t@);
        let nv = match notes {
            Some(n) => Some(n@),
            None => None::<Seq<char>>,
        };
        let cv = match context {
            Some(c) => Some(c@),
            None => None::<Seq<char>>,
        };
        assert(parts@.map_values(|p: String| p@) =~= embedding_parts(tv, nv, cv));
    }
    string_of(&out)
}

} // verus!
