//! Builders for what is sent to the service.

pub mod create_allowed_mentions;
pub mod create_attachment;
pub mod create_components;
pub mod create_embed;
pub mod edit_webhook_message;
