//! Container image names and their configured short forms.

use crate::util::text::str_equal;
use vstd::prelude::*;

verus! {

/// A container image that the configuration allows, with its short name.
#[derive(Debug, Clone)]
pub struct ContainerImage {
    pub name: String,
    pub short_name: String,
}

/// The short name that the images give a full name: that of the last image
/// with this name, if there is one.
pub open spec fn short_name_of(images: Seq<ContainerImage>, name: Seq<char>) -> Option<Seq<char>>
    decreases images.len(),
{
    if images.len() == 0 {
        None
    } else if images.last().name@ == name {
        Some(images.last().short_name@)
    } else {
        short_name_of(images.drop_last(), name)
    }
}

/// The full name that the images give a short name: that of the last image
/// with this short name, if there is one.
pub open spec fn full_name_of(images: Seq<ContainerImage>, short: Seq<char>) -> Option<Seq<char>>
    decreases images.len(),
{
    if images.len() == 0 {
        None
    } else if images.last().short_name@ == short {
        Some(images.last().name@)
    } else {
        full_name_of(images.drop_last(), short)
    }
}

/// The name that an image is listed under: its short name where it has
/// one, else the name itself.
pub open spec fn spec_shorten(images: Seq<ContainerImage>, name: Seq<char>) -> Seq<char> {
    match short_name_of(images, name) {
        Some(short) => short,
        None => name,
    }
}

/// The full name that a name given on the command line stands for: the one
/// it abbreviates, or itself where it is a full name; nothing where the
/// images know neither.
pub open spec fn spec_expand(images: Seq<ContainerImage>, name: Seq<char>) -> Option<Seq<char>> {
    match full_name_of(images, name) {
        Some(full) => Some(full),
        None => if short_name_of(images, name).is_some() {
            Some(name)
        } else {
            None
        },
    }
}

/// Why an image name was not accepted.
#[derive(Debug, Clone)]
pub enum ImageError {
    /// The configuration holds no image of this name or short name.
    UnknownImage(String),
}

/// Looks image names up in the configured images, in both directions.
#[derive(Debug, Clone)]
pub struct ImageNameLookup {
    images: Vec<ContainerImage>,
}

impl ImageNameLookup {
    /// The configured images.
    pub closed spec fn images(&self) -> Seq<ContainerImage> {
        self.images@
    }

    /// A lookup over the configured images.
    pub fn create(available_images: Vec<ContainerImage>) -> (lookup: ImageNameLookup)
        ensures
            lookup.images() == available_images@,
    {
        ImageNameLookup { images: available_images }
    }

    fn find_short(&self, name: &str) -> (r: Option<&String>)
        ensures
            match r {
                Some(short) => short_name_of(self.images(), name@) == Some(short@),
                None => short_name_of(self.images(), name@).is_none(),
            },
    {
        let mut i: usize = self.images.len();
        proof {
            assert(self.images@.take(i as int) =~= self.images@);
        }
        while i > 0
            invariant
                i <= self.images.len(),
                short_name_of(self.images@, name@) == short_name_of(self.images@.take(i as int), name@),
            decreases i,
        {
            proof {
                assert(self.images@.take(i as int).drop_last() =~= self.images@.take(i as int - 1));
            }
            i = i - 1;
            if str_equal(self.images[i].name.as_str(), name) {
                return Some(&self.images[i].short_name);
            }
        }
        None
    }

    fn find_full(&self, short: &str) -> (r: Option<&String>)
        ensures
            match r {
                Some(full) => full_name_of(self.images(), short@) == Some(full@),
                None => full_name_of(self.images(), short@).is_none(),
            },
    {
        let mut i: usize = self.images.len();
        proof {
            assert(self.images@.take(i as int) =~= self.images@);
        }
        while i > 0
            invariant
                i <= self.images.len(),
                full_name_of(self.images@, short@) == full_name_of(self.images@.take(i as int), short@),
            decreases i,
        {
            proof {
                assert(self.images@.take(i as int).drop_last() =~= self.images@.take(i as int - 1));
            }
            i = i - 1;
            if str_equal(self.images[i].short_name.as_str(), short) {
                return Some(&self.images[i].name);
            }
        }
        None
    }

    /// The name to list an image under.
    pub fn shorten(&self, image_name: &str) -> (r: String)
        ensures
            r@ == spec_shorten(self.images(), image_name@),
    {
        match self.find_short(image_name) {
            Some(short) => short.clone(),
            None => image_name.to_owned(),
        }
    }

    /// The full name of an image given by its name or short name.
    pub fn expand(&self, image_name: &str) -> (r: Result<String, ImageError>)
        ensures
            match r {
                Ok(full) => spec_expand(self.images(), image_name@) == Some(full@),
                Err(ImageError::UnknownImage(name)) => spec_expand(self.images(), image_name@).is_none()
                    && name@ == image_name@,
            },
    {
        match self.find_full(image_name) {
            Some(full) => Ok(full.clone()),
            None => match self.find_short(image_name) {
                Some(_) => Ok(image_name.to_owned()),
                None => Err(ImageError::UnknownImage(image_name.to_owned())),
            },
        }
    }
}

} // verus!
