//! The preprocessor, applied one chapter at a time.
use crate::markup::{rewrite, rewritten_markup};
use crate::prefix::{resolve_prefix, separator_count, up_prefix};
use vstd::prelude::*;

verus! {

/// Name of this preprocessor.
pub const NAME: &'static str = "mdbook-force-relative-links";

/// A chapter of the book: its path below the book root, if it has one, and
/// its markdown text.
pub struct Document {
    pub path: Option<String>,
    pub content: String,
}

/// The new text of the chapter at `path` whose text is `content`: its
/// destinations rewritten under the prefix that leads back to the book root.
pub open spec fn chapter_content(path: Seq<char>, content: Seq<char>) -> Seq<char> {
    rewritten_markup(content, up_prefix(separator_count(path)))
}

/// What handling leaves of `before`: the same path, and the content rewritten
/// when there is a path.
pub open spec fn handled(before: Document, after: Document) -> bool {
    &&& after.path == before.path
    &&& match before.path {
        Some(p) => after.content@ == chapter_content(p@, before.content@),
        None => after.content == before.content,
    }
}

/// A preprocessor which converts absolute links to relative ones.
///
/// Works with all renderers
pub struct ForceRelativeLinks;

impl ForceRelativeLinks {
    /// The name under which the preprocessor is known to mdbook.
    pub fn name(&self) -> (r: &'static str)
        ensures
            r@ == NAME@,
    {
        NAME
    }

    /// Every renderer is supported.
    pub fn supports_renderer(&self, renderer: &str) -> (r: bool)
        ensures
            r,
    {
        true
    }

    /// Rewrites the links of every chapter in `docs`, each on its own.
    pub fn run(&self, docs: &mut Vec<Document>)
        ensures
            final(docs)@.len() == old(docs)@.len(),
            forall|i: int| 0 <= i < old(docs)@.len() ==> handled(#[trigger] old(docs)@[i], final(docs)@[i]),
    {
        let n = docs.len();
        let mut i: usize = 0;
        while i < n
            invariant
                n == old(docs)@.len(),
                docs@.len() == n,
                i <= n,
                forall|j: int| 0 <= j < i ==> handled(#[trigger] old(docs)@[j], docs@[j]),
                forall|j: int| i <= j < n ==> #[trigger] docs@[j] == old(docs)@[j],
            decreases n - i,
        {
            let content = match &docs[i].path {
                Some(path) => Some(rewrite(docs[i].content.as_str(), resolve_prefix(path.as_str()).as_str())),
                None => None,
            };
            if let Some(content) = content {
                let path = docs[i].path.clone();
                docs.set(i, Document { path, content });
            }
            i = i + 1;
        }
    }
}

/// Rewrites the links of one chapter relative to its own directory; a chapter
/// without a path is left untouched.
pub fn handle_item(doc: &mut Document)
    ensures
        handled(*old(doc), *final(doc)),
{
    match &doc.path {
        Some(path) => {
            let prefix = resolve_prefix(path.as_str());
            doc.content = rewrite(doc.content.as_str(), prefix.as_str());
        },
        None => {},
    }
}

} // verus!
