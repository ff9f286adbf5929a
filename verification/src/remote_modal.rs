//! The remote-control modal: the LAN address of the phone remote, shown
//! with its QR code (drawn by the caller), or a notice when the remote
//! server could not start.

use vstd::prelude::*;

verus! {

/// What the modal reports.
pub enum RemoteModalEvent {
    /// The close button was clicked.
    Close,
}

/// The modal's state.
pub struct RemoteModal {
    /// The remote's URL; `None` when its server failed to bind.
    pub remote_url: Option<String>,
}

impl RemoteModal {
    pub fn new(remote_url: Option<String>) -> (r: Self)
        ensures
            r.remote_url == remote_url,
    {
        RemoteModal { remote_url }
    }

    /// The URL printed under the QR code (empty without a URL).
    pub fn url_display(&self) -> (r: String)
        ensures
            r@ == (match self.remote_url {
                Some(u) => u@,
                None => Seq::<char>::empty(),
            }),
    {
        match &self.remote_url {
            Some(u) => u.clone(),
            None => String::new(),
        }
    }
}

} // verus!
