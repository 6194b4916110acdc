//! Rich content embedded in a message.

use vstd::prelude::*;
use vstd::string::*;

use crate::constants::EMBED_MAX_LENGTH;
use crate::error::{Error, ModelError};
use crate::utils::check_overflow;

verus! {

/// One titled entry of an embed.
#[derive(Clone, Debug)]
pub struct EmbedField {
    pub name: String,
    pub value: String,
    /// Whether the field may share a line with its neighbours.
    pub inline: bool,
}

/// An embed to send with a message.
#[derive(Clone, Debug)]
pub struct CreateEmbed {
    /// The name of the author shown above the title.
    pub author: Option<String>,
    pub description: Option<String>,
    pub fields: Vec<EmbedField>,
    /// The text shown at the foot of the embed.
    pub footer: Option<String>,
    pub title: Option<String>,
}

/// The code points of a text that may be absent.
pub open spec fn optional_len(text: Option<String>) -> nat {
    match text {
        Some(text) => text@.len(),
        None => 0,
    }
}

/// The code points of the names and values of `fields`, added up.
pub open spec fn fields_len(fields: Seq<EmbedField>) -> nat
    decreases fields.len(),
{
    if fields.len() == 0 {
        0
    } else {
        fields_len(fields.drop_last()) + fields.last().name@.len() + fields.last().value@.len()
    }
}

/// The fields up to some place never count for more than all of them.
proof fn lemma_fields_len_grows(fields: Seq<EmbedField>, i: int)
    requires
        0 <= i <= fields.len(),
    ensures
        fields_len(fields.take(i)) <= fields_len(fields),
    decreases fields.len() - i,
{
    if i < fields.len() {
        lemma_fields_len_grows(fields, i + 1);
        assert(fields.take(i + 1).drop_last() =~= fields.take(i));
    } else {
        assert(fields.take(i) =~= fields);
    }
}

impl CreateEmbed {
    /// The code points of all text that counts against the limit on an embed.
    pub open spec fn text_len(&self) -> nat {
        optional_len(self.author) + optional_len(self.description) + fields_len(self.fields@)
            + optional_len(self.footer) + optional_len(self.title)
    }

    /// An embed with nothing in it.
    pub fn new() -> (embed: Self)
        ensures
            embed.author is None,
            embed.description is None,
            embed.fields@.len() == 0,
            embed.footer is None,
            embed.title is None,
            embed.text_len() == 0,
    {
        CreateEmbed { author: None, description: None, fields: Vec::new(), footer: None, title: None }
    }

    /// Whether the text of the embed can be counted at all: it adds up to no
    /// more code points than a `usize` holds.
    pub fn is_countable(&self) -> (countable: bool)
        ensures
            countable == (self.text_len() <= usize::MAX),
    {
        let mut length: usize = 0;
        if let Some(author) = &self.author {
            length = author.as_str().unicode_len();
        }
        if let Some(description) = &self.description {
            length = match length.checked_add(description.as_str().unicode_len()) {
                Some(length) => length,
                None => {
                    return false;
                },
            };
        }
        let mut i: usize = 0;
        while i < self.fields.len()
            invariant
                0 <= i <= self.fields.len(),
                length == optional_len(self.author) + optional_len(self.description) + fields_len(
                    self.fields@.take(i as int),
                ),
            decreases self.fields.len() - i,
        {
            proof {
                lemma_fields_len_grows(self.fields@, i + 1);
                assert(self.fields@.take(i + 1).drop_last() =~= self.fields@.take(i as int));
            }
            let field = &self.fields[i];
            length = match length.checked_add(field.name.as_str().unicode_len()) {
                Some(length) => length,
                None => {
                    return false;
                },
            };
            length = match length.checked_add(field.value.as_str().unicode_len()) {
                Some(length) => length,
                None => {
                    return false;
                },
            };
            i = i + 1;
        }
        proof {
            assert(self.fields@.take(i as int) =~= self.fields@);
        }
        if let Some(footer) = &self.footer {
            length = match length.checked_add(footer.as_str().unicode_len()) {
                Some(length) => length,
                None => {
                    return false;
                },
            };
        }
        if let Some(title) = &self.title {
            length = match length.checked_add(title.as_str().unicode_len()) {
                Some(length) => length,
                None => {
                    return false;
                },
            };
        }
        true
    }

    /// Rejects an embed whose text adds up to more than [`EMBED_MAX_LENGTH`]
    /// code points, and says by how many it is over.
    pub fn check_length(&self) -> (checked: Result<(), Error>)
        requires
            self.text_len() <= usize::MAX,
        ensures
            self.text_len() <= EMBED_MAX_LENGTH ==> checked == Ok::<(), Error>(()),
            self.text_len() > EMBED_MAX_LENGTH ==> checked == Err::<(), Error>(
                Error::Model(
                    ModelError::EmbedTooLarge((self.text_len() - EMBED_MAX_LENGTH) as usize),
                ),
            ),
    {
        let mut length: usize = 0;
        if let Some(author) = &self.author {
            length = length + author.as_str().unicode_len();
        }
        if let Some(description) = &self.description {
            length = length + description.as_str().unicode_len();
        }
        let mut i: usize = 0;
        while i < self.fields.len()
            invariant
                0 <= i <= self.fields.len(),
                self.text_len() <= usize::MAX,
                length == optional_len(self.author) + optional_len(self.description) + fields_len(
                    self.fields@.take(i as int),
                ),
            decreases self.fields.len() - i,
        {
            proof {
                lemma_fields_len_grows(self.fields@, i + 1);
                assert(self.fields@.take(i + 1).drop_last() =~= self.fields@.take(i as int));
            }
            let field = &self.fields[i];
            length = length + field.name.as_str().unicode_len();
            length = length + field.value.as_str().unicode_len();
            i = i + 1;
        }
        proof {
            assert(self.fields@.take(i as int) =~= self.fields@);
        }
        if let Some(footer) = &self.footer {
            length = length + footer.as_str().unicode_len();
        }
        if let Some(title) = &self.title {
            length = length + title.as_str().unicode_len();
        }
        match check_overflow(length, EMBED_MAX_LENGTH) {
            Ok(()) => Ok(()),
            Err(overflow) => Err(Error::Model(ModelError::EmbedTooLarge(overflow))),
        }
    }
}

} // verus!
