//! Publishing telemetry frames to clients.
//!
//! The application owns the sockets; here is what it decides.

use vstd::prelude::*;

use crate::backend::remote_ext;
use crate::backend::remote_ext::{inject_extension, TtToplikeExt};
use crate::document;
use crate::document::JsonView;
use crate::text;
use crate::text::str_eq;

verus! {

/// The one path that is served.
pub open spec fn served_path() -> Seq<char> {
    "/telemetry"@
}

/// Whether a request is answered, or with what message it is turned away as not
/// found.
pub fn check_telemetry_path(path: &str) -> (r: Result<(), String>)
    ensures
        r is Ok <==> path@ == served_path(),
        r matches Err(m) ==> m@ == "tt-toplike telemetry publisher only serves /telemetry (got "@
            + path@ + ")"@,
{
    if str_eq(path, "/telemetry") {
        return Ok(());
    }
    let mut m = "tt-toplike telemetry publisher only serves /telemetry (got ".to_owned();
    m.append(path);
    m.append(")");
    Err(m)
}

/// Whether a backend can be published: only one that has a snapshot as `tt-smi`
/// printed it.
pub fn check_snapshot(snapshot: &Option<String>) -> (r: Result<(), String>)
    ensures
        r is Ok <==> snapshot is Some,
        r matches Err(m) ==> m@
            == "--serve needs the json or hybrid backend (tt-smi); relaunch with --backend hybrid or --backend json"@,
{
    match snapshot {
        Some(_) => Ok(()),
        None => Err(
            "--serve needs the json or hybrid backend (tt-smi); relaunch with --backend hybrid or --backend json".to_owned(),
        ),
    }
}

/// The frame to publish: the snapshot with the extension, or as it is where it
/// is no JSON object. Without a snapshot the frame is empty.
pub fn build_frame(snapshot: Option<String>, ext: &TtToplikeExt) -> (frame: String)
    ensures
        ({
            let base = match snapshot {
                Some(s) => s@,
                None => Seq::empty(),
            };
            match document::json_document(base) {
                Ok(JsonView::Object(m)) => remote_ext::frame_written(m, ext@, frame@)
                    && remote_ext::frame_extended(m, ext@, frame@),
                _ => frame@ == base,
            }
        }),
{
    let base = match snapshot {
        Some(s) => s,
        None => {
            let s = String::new();
            assert(s@ =~= Seq::<char>::empty());
            s
        },
    };
    inject_extension(base.as_str(), ext)
}

/// What is published: the newest frame, and the number of clients. An empty
/// frame means that there is none yet.
#[derive(Debug)]
pub struct Publication {
    pub frame: String,
    pub clients: usize,
}

/// A frame, unless it is empty.
pub open spec fn sendable(frame: Seq<char>) -> Option<Seq<char>> {
    if frame.len() == 0 { None } else { Some(frame) }
}

impl Publication {
    /// No frame and no client.
    pub fn new() -> (p: Self)
        ensures
            p.frame@.len() == 0,
            p.clients == 0,
    {
        let frame = String::new();
        assert(frame@ =~= Seq::<char>::empty());
        Publication { frame, clients: 0 }
    }

    /// Publishes a frame, though there may be no client yet.
    pub fn broadcast(&mut self, frame: String)
        ensures
            *final(self) == (Publication { frame, ..*old(self) }),
    {
        self.frame = frame;
    }

    /// The frame to send to a client, where there is one.
    pub fn current(&self) -> (r: Option<String>)
        ensures
            text::opt_text(r) == sendable(self.frame@),
    {
        if str_eq(self.frame.as_str(), "") {
            proof {
                reveal_strlit("");
            }
            None
        } else {
            proof {
                reveal_strlit("");
                if self.frame@.len() == 0 {
                    assert(self.frame@ =~= ""@);
                }
            }
            Some(self.frame.clone())
        }
    }

    /// A client connects: it is counted, and gets the frame that is there.
    pub fn connect(&mut self) -> (r: Option<String>)
        ensures
            final(self).frame == old(self).frame,
            final(self).clients == if old(self).clients == usize::MAX {
                usize::MAX
            } else {
                (old(self).clients + 1) as usize
            },
            text::opt_text(r) == sendable(old(self).frame@),
    {
        self.clients = self.clients.saturating_add(1);
        self.current()
    }

    /// A client is gone.
    pub fn disconnect(&mut self)
        ensures
            final(self).frame == old(self).frame,
            final(self).clients == if old(self).clients == 0 {
                0
            } else {
                (old(self).clients - 1) as usize
            },
    {
        self.clients = self.clients.saturating_sub(1);
    }

    /// The number of clients.
    pub fn client_count(&self) -> (n: usize)
        ensures
            n == self.clients,
    {
        self.clients
    }
}

/// A frame that was published before any client reaches a client that connects
/// later.
pub proof fn law_late_clients_get_the_newest_frame(before: Publication, frame: String)
    requires
        frame@.len() > 0,
    ensures
        sendable((Publication { frame, ..before }).frame@) == Some(frame@),
{
}

/// One path is served, and a frame is sent unless it is empty.
pub proof fn law_one_path_is_served(frame: Seq<char>)
    ensures
        served_path() == "/telemetry"@,
        sendable(frame) is Some <==> frame.len() > 0,
        sendable(frame) is Some ==> sendable(frame)->0 == frame,
{
}

} // verus!
