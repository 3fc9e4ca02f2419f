//! The decisions of the websocket endpoints: what to do with each frame a
//! client sends, and when a silent client is dropped.
use vstd::prelude::*;

use crate::text::{trim, trimmed};

verus! {

/// Seconds between two heartbeat checks.
pub const HEARTBEAT_INTERVAL_SECS: u64 = 5;

/// A client silent for longer than this many nanoseconds is dropped.
pub const CLIENT_TIMEOUT_NANOS: u128 = 10_000_000_000;

/// A frame received from a websocket client, or the failure to read one.
pub enum ClientFrame {
    Ping,
    Pong,
    Text(String),
    Close,
    /// Any other frame (binary, continuation, no-op).
    Other,
    /// The frame could not be read.
    Failed,
}

/// What the endpoint does with a frame.
pub enum FrameAction {
    /// Note the client as alive and answer with a pong of the same payload.
    RefreshAndPong,
    /// Note the client as alive.
    Refresh,
    /// Pass this text on to the server.
    Forward(String),
    /// Nothing.
    Ignore,
    /// Close the connection with the client's reason, then stop.
    CloseAndStop,
    /// Stop the connection.
    Stop,
}

/// The model of an action: text in place of a string.
pub enum ActionModel {
    RefreshAndPong,
    Refresh,
    Forward(Seq<char>),
    Ignore,
    CloseAndStop,
    Stop,
}

impl View for FrameAction {
    type V = ActionModel;

    open spec fn view(&self) -> ActionModel {
        match self {
            FrameAction::RefreshAndPong => ActionModel::RefreshAndPong,
            FrameAction::Refresh => ActionModel::Refresh,
            FrameAction::Forward(t) => ActionModel::Forward(t@),
            FrameAction::Ignore => ActionModel::Ignore,
            FrameAction::CloseAndStop => ActionModel::CloseAndStop,
            FrameAction::Stop => ActionModel::Stop,
        }
    }
}

/// What an endpoint does with `frame`; texts are trimmed and forwarded when
/// `forwards_text`, dropped otherwise.
pub open spec fn action_for(frame: ClientFrame, forwards_text: bool) -> ActionModel {
    match frame {
        ClientFrame::Ping => ActionModel::RefreshAndPong,
        ClientFrame::Pong => ActionModel::Refresh,
        ClientFrame::Text(t) => if forwards_text {
            ActionModel::Forward(trimmed(t@))
        } else {
            ActionModel::Ignore
        },
        ClientFrame::Close => ActionModel::CloseAndStop,
        ClientFrame::Other => ActionModel::Stop,
        ClientFrame::Failed => ActionModel::Stop,
    }
}

fn frame_action(frame: ClientFrame, forwards_text: bool) -> (a: FrameAction)
    ensures
        a@ == action_for(frame, forwards_text),
{
    match frame {
        ClientFrame::Ping => FrameAction::RefreshAndPong,
        ClientFrame::Pong => FrameAction::Refresh,
        ClientFrame::Text(t) => {
            if forwards_text {
                FrameAction::Forward(trim(t.as_str()))
            } else {
                FrameAction::Ignore
            }
        },
        ClientFrame::Close => FrameAction::CloseAndStop,
        ClientFrame::Other => FrameAction::Stop,
        ClientFrame::Failed => FrameAction::Stop,
    }
}

/// What the endpoint streaming a device does with a frame: text is trimmed
/// and sent on to the device.
pub fn device_stream_action(frame: ClientFrame) -> (a: FrameAction)
    ensures
        a@ == action_for(frame, true),
{
    frame_action(frame, true)
}

/// What the scan endpoint does with a frame: text is dropped.
pub fn scan_stream_action(frame: ClientFrame) -> (a: FrameAction)
    ensures
        a@ == action_for(frame, false),
{
    frame_action(frame, false)
}

/// Whether a client last heard from `elapsed_nanos` nanoseconds ago is to
/// be dropped; otherwise it is pinged.
pub fn heartbeat_expired(elapsed_nanos: u128) -> (b: bool)
    ensures
        b == (elapsed_nanos > CLIENT_TIMEOUT_NANOS),
{
    elapsed_nanos > CLIENT_TIMEOUT_NANOS
}

/// Both endpoints keep live clients connected in the same way: a pong
/// refreshes the client's heartbeat, a ping refreshes it and is answered,
/// a close closes and stops, an unreadable or other frame stops; only text
/// differs, forwarded trimmed by the device endpoint and dropped by the
/// scan endpoint.
pub proof fn law_frames_keep_clients_alive(forwards_text: bool, text: String)
    ensures
        action_for(ClientFrame::Pong, forwards_text) == ActionModel::Refresh,
        action_for(ClientFrame::Ping, forwards_text) == ActionModel::RefreshAndPong,
        action_for(ClientFrame::Close, forwards_text) == ActionModel::CloseAndStop,
        action_for(ClientFrame::Other, forwards_text) == ActionModel::Stop,
        action_for(ClientFrame::Failed, forwards_text) == ActionModel::Stop,
        action_for(ClientFrame::Text(text), true) == ActionModel::Forward(trimmed(text@)),
        action_for(ClientFrame::Text(text), false) == ActionModel::Ignore,
{
}

} // verus!
