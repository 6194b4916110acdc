//! Edits of a message that a webhook has sent.

use vstd::prelude::*;
use vstd::string::*;

use crate::builder::create_allowed_mentions::CreateAllowedMentions;
use crate::builder::create_attachment::{CreateAttachment, ExistingAttachment};
use crate::builder::create_components::CreateActionRow;
use crate::builder::create_embed::CreateEmbed;
use crate::constants::{EMBED_MAX_COUNT, EMBED_MAX_LENGTH, MESSAGE_CODE_LIMIT};
use crate::error::{Error, ModelError};
use crate::model::id::{AttachmentId, ChannelId};
use crate::utils::check_overflow;

verus! {

/// A builder to specify the fields to edit in an existing webhook's message.
///
/// A field that is `None` leaves that part of the message as it is.
#[derive(Clone, Debug)]
#[must_use]
pub struct EditWebhookMessage {
    pub content: Option<String>,
    pub embeds: Option<Vec<CreateEmbed>>,
    pub allowed_mentions: Option<CreateAllowedMentions>,
    pub components: Option<Vec<CreateActionRow>>,
    /// The files the message keeps. `None` keeps them all.
    pub attachments: Option<Vec<ExistingAttachment>>,
    /// The thread the message is in, when it is in one. Not part of the edit
    /// itself.
    pub thread_id: Option<ChannelId>,
    /// The files to upload with the edit. Not part of the edit itself.
    pub files: Vec<CreateAttachment>,
}

/// The items of a list that may not have been set yet.
pub open spec fn items<T>(list: Option<Vec<T>>) -> Seq<T> {
    match list {
        Some(list) => list@,
        None => Seq::empty(),
    }
}

impl EditWebhookMessage {
    /// Whether this edit changes nothing and uploads nothing.
    pub open spec fn is_blank(&self) -> bool {
        &&& self.content is None
        &&& self.embeds is None
        &&& self.allowed_mentions is None
        &&& self.components is None
        &&& self.attachments is None
        &&& self.thread_id is None
        &&& self.files@.len() == 0
    }

    /// Whether the content, if it is set, keeps to [`MESSAGE_CODE_LIMIT`].
    pub open spec fn content_fits(&self) -> bool {
        self.content matches Some(content) ==> content@.len() <= MESSAGE_CODE_LIMIT
    }

    /// Whether there are no more embeds than [`EMBED_MAX_COUNT`].
    pub open spec fn embed_count_fits(&self) -> bool {
        items(self.embeds).len() <= EMBED_MAX_COUNT
    }

    /// An edit that changes nothing yet. Equivalent to [`Self::default`].
    pub fn new() -> (edit: Self)
        ensures
            edit.is_blank(),
    {
        EditWebhookMessage {
            content: None,
            embeds: None,
            allowed_mentions: None,
            components: None,
            attachments: None,
            thread_id: None,
            files: Vec::new(),
        }
    }

    /// Whether the text of every embed can be counted.
    pub open spec fn countable(&self) -> bool {
        forall|i: int|
            0 <= i < items(self.embeds).len() ==> (#[trigger] items(self.embeds)[i]).text_len()
                <= usize::MAX
    }

    /// Finds out whether the text of every embed can be counted, which
    /// [`Self::check_length`] asks for.
    pub fn is_countable(&self) -> (countable: bool)
        ensures
            countable == self.countable(),
    {
        if let Some(embeds) = &self.embeds {
            let mut i: usize = 0;
            while i < embeds.len()
                invariant
                    0 <= i <= embeds.len(),
                    embeds@ == items(self.embeds),
                    forall|j: int| 0 <= j < i ==> (#[trigger] embeds@[j]).text_len() <= usize::MAX,
                decreases embeds.len() - i,
            {
                if !embeds[i].is_countable() {
                    return false;
                }
                i = i + 1;
            }
        }
        true
    }

    /// Holds the edit against the limits of the service.
    ///
    /// The content is looked at first, then the number of embeds, then each
    /// embed in turn; the first limit that is broken is the one reported.
    pub fn check_length(&self) -> (checked: Result<(), Error>)
        requires
            self.countable(),
        ensures
            match checked {
                Ok(()) => {
                    &&& self.content_fits()
                    &&& self.embed_count_fits()
                    &&& forall|i: int|
                        0 <= i < items(self.embeds).len() ==> (#[trigger] items(
                            self.embeds,
                        )[i]).text_len() <= EMBED_MAX_LENGTH
                },
                Err(Error::Model(ModelError::MessageTooLong(overflow))) => {
                    &&& self.content matches Some(content)
                    &&& content@.len() == MESSAGE_CODE_LIMIT + overflow
                    &&& overflow > 0
                },
                Err(Error::Model(ModelError::EmbedAmount)) => {
                    &&& self.content_fits()
                    &&& !self.embed_count_fits()
                },
                Err(Error::Model(ModelError::EmbedTooLarge(overflow))) => {
                    &&& self.content_fits()
                    &&& self.embed_count_fits()
                    &&& overflow > 0
                    &&& exists|i: int|
                        {
                            &&& 0 <= i < items(self.embeds).len()
                            &&& (#[trigger] items(self.embeds)[i]).text_len() == EMBED_MAX_LENGTH
                                + overflow
                            &&& forall|j: int|
                                0 <= j < i ==> (#[trigger] items(self.embeds)[j]).text_len()
                                    <= EMBED_MAX_LENGTH
                        }
                },
            },
    {
        if let Some(content) = &self.content {
            match check_overflow(content.as_str().unicode_len(), MESSAGE_CODE_LIMIT) {
                Ok(()) => {},
                Err(overflow) => {
                    return Err(Error::Model(ModelError::MessageTooLong(overflow)));
                },
            }
        }
        if let Some(embeds) = &self.embeds {
            if check_overflow(embeds.len(), EMBED_MAX_COUNT).is_err() {
                return Err(Error::Model(ModelError::EmbedAmount));
            }
            let mut i: usize = 0;
            while i < embeds.len()
                invariant
                    0 <= i <= embeds.len(),
                    embeds@ == items(self.embeds),
                    self.content_fits(),
                    self.embed_count_fits(),
                    forall|k: int|
                        0 <= k < embeds@.len() ==> (#[trigger] embeds@[k]).text_len()
                            <= usize::MAX,
                    forall|j: int|
                        0 <= j < i ==> (#[trigger] embeds@[j]).text_len() <= EMBED_MAX_LENGTH,
                decreases embeds.len() - i,
            {
                match embeds[i].check_length() {
                    Ok(()) => {},
                    Err(why) => {
                        return Err(why);
                    },
                }
                i = i + 1;
            }
        }
        Ok(())
    }

    /// Set the content of the message.
    ///
    /// **Note**: Message contents must be under 2000 unicode code points.
    pub fn content(self, content: String) -> (edit: Self)
        ensures
            edit == (EditWebhookMessage { content: Some(content), ..self }),
    {
        let mut edit = self;
        edit.content = Some(content);
        edit
    }

    /// Edits a message within a given thread. If the provided thread Id doesn't
    /// belong to the current webhook, the API will return an error.
    pub fn in_thread(self, thread_id: ChannelId) -> (edit: Self)
        ensures
            edit == (EditWebhookMessage { thread_id: Some(thread_id), ..self }),
    {
        let mut edit = self;
        edit.thread_id = Some(thread_id);
        edit
    }

    /// Adds an embed for the message.
    ///
    /// Embeds from the original message are reset when adding new embeds and
    /// must be re-added.
    pub fn add_embed(self, embed: CreateEmbed) -> (edit: Self)
        ensures
            edit.embeds is Some,
            items(edit.embeds) == items(self.embeds).push(embed),
            edit == (EditWebhookMessage { embeds: edit.embeds, ..self }),
    {
        let mut edit = self;
        let mut embeds = match edit.embeds {
            Some(embeds) => embeds,
            None => Vec::new(),
        };
        embeds.push(embed);
        edit.embeds = Some(embeds);
        edit
    }

    /// Adds multiple embeds to the message.
    ///
    /// Embeds from the original message are reset when adding new embeds and
    /// must be re-added.
    pub fn add_embeds(self, embeds: Vec<CreateEmbed>) -> (edit: Self)
        ensures
            edit.embeds is Some,
            items(edit.embeds) == items(self.embeds) + embeds@,
            edit == (EditWebhookMessage { embeds: edit.embeds, ..self }),
    {
        let mut edit = self;
        let mut added = embeds;
        let mut all = match edit.embeds {
            Some(embeds) => embeds,
            None => Vec::new(),
        };
        all.append(&mut added);
        edit.embeds = Some(all);
        edit
    }

    /// Sets a single embed to include in the message
    ///
    /// Calling this will overwrite the embed list. To append embeds, call
    /// [`Self::add_embed`] instead.
    pub fn embed(self, embed: CreateEmbed) -> (edit: Self)
        ensures
            edit.embeds is Some,
            items(edit.embeds) == seq![embed],
            edit == (EditWebhookMessage { embeds: edit.embeds, ..self }),
    {
        let mut edit = self;
        let mut embeds = Vec::new();
        embeds.push(embed);
        edit.embeds = Some(embeds);
        edit
    }

    /// Sets the embeds for the message.
    ///
    /// **Note**: You can only have up to 10 embeds per message.
    ///
    /// Calling this will overwrite the embed list. To append embeds, call
    /// [`Self::add_embeds`] instead.
    pub fn embeds(self, embeds: Vec<CreateEmbed>) -> (edit: Self)
        ensures
            edit == (EditWebhookMessage { embeds: Some(embeds), ..self }),
    {
        let mut edit = self;
        edit.embeds = Some(embeds);
        edit
    }

    /// Set the allowed mentions for the message.
    pub fn allowed_mentions(self, allowed_mentions: CreateAllowedMentions) -> (edit: Self)
        ensures
            edit == (EditWebhookMessage { allowed_mentions: Some(allowed_mentions), ..self }),
    {
        let mut edit = self;
        edit.allowed_mentions = Some(allowed_mentions);
        edit
    }

    /// Sets the components for this message. Requires an application-owned
    /// webhook.
    pub fn components(self, components: Vec<CreateActionRow>) -> (edit: Self)
        ensures
            edit == (EditWebhookMessage { components: Some(components), ..self }),
    {
        let mut edit = self;
        edit.components = Some(components);
        edit
    }

    /// Add a new attachment for the message.
    ///
    /// This can be called multiple times.
    ///
    /// If this is called one or more times, existing attachments will reset. To
    /// keep them, provide their IDs to [`Self::keep_existing_attachment`].
    pub fn new_attachment(self, attachment: CreateAttachment) -> (edit: Self)
        ensures
            edit.files@ == self.files@.push(attachment),
            edit == (EditWebhookMessage { files: edit.files, ..self }),
    {
        let mut edit = self;
        edit.files.push(attachment);
        edit
    }

    /// Keeps an existing attachment by id.
    ///
    /// To be used after [`Self::new_attachment`] or
    /// [`Self::clear_existing_attachments`].
    pub fn keep_existing_attachment(self, id: AttachmentId) -> (edit: Self)
        ensures
            edit.attachments is Some,
            items(edit.attachments) == items(self.attachments).push(ExistingAttachment { id }),
            edit == (EditWebhookMessage { attachments: edit.attachments, ..self }),
    {
        let mut edit = self;
        let mut attachments = match edit.attachments {
            Some(attachments) => attachments,
            None => Vec::new(),
        };
        attachments.push(ExistingAttachment { id });
        edit.attachments = Some(attachments);
        edit
    }

    /// Clears existing attachments.
    ///
    /// In combination with [`Self::keep_existing_attachment`], this can be used
    /// to selectively keep only some existing attachments.
    pub fn clear_existing_attachments(self) -> (edit: Self)
        ensures
            edit.attachments is Some,
            items(edit.attachments) == Seq::<ExistingAttachment>::empty(),
            edit == (EditWebhookMessage { attachments: edit.attachments, ..self }),
    {
        let mut edit = self;
        edit.attachments = Some(Vec::new());
        edit
    }
}

impl Default for EditWebhookMessage {
    fn default() -> (edit: Self)
        ensures
            edit.is_blank(),
    {
        EditWebhookMessage::new()
    }
}

} // verus!
