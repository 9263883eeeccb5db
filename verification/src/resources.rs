//! The image files that the text of a document may name.
//!
//! Looking for a file and reading it is the caller's work. The library is
//! handed what was found, under the name by which the document refers to it.

use vstd::prelude::*;
use vstd::string::*;

verus! {

/// What came of looking for one image file.
#[derive(Debug)]
pub struct ImageFile {
    /// The name of the file as the document writes it.
    pub name: String,
    /// The image as PNG data, or nothing where there is no such file.
    pub png: Option<Vec<u8>>,
}

/// The image files that were looked for so far. Where a name was looked for
/// more than once, the last answer counts.
#[derive(Debug)]
pub struct Resources {
    images: Vec<ImageFile>,
}

/// From the name of an image file to what was found under it: its data as
/// PNG, or nothing where there is no such file. A name that was never looked
/// for has no entry.
pub type Images = Map<Seq<char>, Option<Seq<u8>>>;

/// The data of an image, if there is any.
pub open spec fn png_view(png: Option<Vec<u8>>) -> Option<Seq<u8>> {
    match png {
        Some(data) => Some(data@),
        None => None,
    }
}

/// From each name among `images` to what was found under it.
pub open spec fn lookups(images: Seq<ImageFile>) -> Images
    decreases images.len(),
{
    if images.len() == 0 {
        Map::empty()
    } else {
        lookups(images.drop_last()).insert(images.last().name@, png_view(images.last().png))
    }
}

/// Files behind position `from` that have another name than `name` do not
/// change what is known of `name`.
pub proof fn lemma_lookups_skip(images: Seq<ImageFile>, from: int, name: Seq<char>)
    requires
        0 <= from <= images.len(),
        forall|i: int| from <= i < images.len() ==> (#[trigger] images[i]).name@ != name,
    ensures
        lookups(images).dom().contains(name) == lookups(images.take(from)).dom().contains(name),
        lookups(images).dom().contains(name) ==> lookups(images)[name] == lookups(
            images.take(from),
        )[name],
    decreases images.len() - from,
{
    if from < images.len() {
        assert(images.drop_last().take(from) == images.take(from));
        lemma_lookups_skip(images.drop_last(), from, name);
    } else {
        assert(images.take(from) == images);
    }
}

impl View for Resources {
    type V = Images;

    closed spec fn view(&self) -> Images {
        lookups(self.images@)
    }
}

impl Resources {
    /// No file was looked for yet.
    pub fn new() -> (resources: Resources)
        ensures
            resources@ == Images::empty(),
    {
        Resources { images: Vec::new() }
    }

    /// Records what came of looking for the file `name`.
    pub fn insert(&mut self, name: String, png: Option<Vec<u8>>)
        ensures
            final(self)@ == old(self)@.insert(name@, png_view(png)),
    {
        let ghost before = self.images@;
        let file = ImageFile { name, png };
        self.images.push(file);
        assert(self.images@.drop_last() == before);
    }

    /// What is known of the file `name`: nothing where it was never looked
    /// for.
    pub fn get(&self, name: &str) -> (found: Option<&ImageFile>)
        ensures
            match found {
                Some(file) => {
                    &&& file.name@ == name@
                    &&& self@.dom().contains(name@)
                    &&& self@[name@] == png_view(file.png)
                },
                None => !self@.dom().contains(name@),
            },
    {
        let wanted = String::from_str(name);
        let mut at: usize = self.images.len();
        while at > 0
            invariant
                at <= self.images.len(),
                wanted@ == name@,
                forall|i: int|
                    at <= i < self.images.len() ==> (#[trigger] self.images[i]).name@ != name@,
            decreases at,
        {
            at -= 1;
            if self.images[at].name == wanted {
                proof {
                    lemma_lookups_skip(self.images@, at + 1, name@);
                }
                return Some(&self.images[at]);
            }
        }
        proof {
            lemma_lookups_skip(self.images@, 0, name@);
        }
        None
    }
}

} // verus!
