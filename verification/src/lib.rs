pub mod text;
pub mod seo_audit;
pub mod firewall;
pub mod svg;
pub mod settings;
pub mod commerce;
pub mod deploy;
pub mod routing;
pub mod contact;
pub mod auth;
pub mod mfa;
pub mod setup;
pub mod seo;
pub mod feeds;
pub mod mail;
pub mod site;
pub mod webhooks;
