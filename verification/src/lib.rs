//! The logic of a desktop program that clicks a button of a web page again and again.
//!
//! The program shows a control window and a target page. A controller script in the target page
//! lets the user pick an element, clicks it at an interval, and reports what it sees. The library
//! holds the state ([`runtime`]), the commands of the control window ([`command`]), what the
//! controller is told ([`target`], [`script`]), and the two ways by which it reports: URLs that are
//! taken out of the navigation ([`navigation`], [`chunks`]) and a local HTTP endpoint
//! ([`request`], [`reply`]), both of which bring an [`event`].
//!
//! Every function states what it does over views of its arguments: texts are sequences of
//! characters, and the state is a [`RuntimeView`](runtime::RuntimeView). A function that reads the
//! clock states what holds whatever the time is; beside it stands one that is given the time, with
//! an exact contract, whose name ends in `_at`. What is had from other crates without proof is
//! gathered in [`outside`], apart from the clock in [`clock`], the UTF-8 decoder in [`request`] and
//! one string operation in [`text`].
pub mod chunks;
pub mod clock;
pub mod command;
pub mod event;
pub mod navigation;
pub mod outside;
pub mod page;
pub mod reply;
pub mod request;
pub mod runtime;
pub mod script;
pub mod target;
pub mod text;
