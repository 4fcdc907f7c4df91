use vstd::prelude::*;
use crate::guard::AuthUser;
use crate::text::opt_view;
use crate::users::UserId;

verus! {

/// Body of a capture request.
pub struct CaptureRequest {
    pub uri: String,
    pub is_write: bool,
    pub language: Option<String>,
    pub line_number: Option<i32>,
    pub cursor_pos: Option<i32>,
}

/// Answer to a capture request.
#[derive(Clone, Copy, Debug, PartialEq, Eq, Structural)]
pub struct CaptureResponse {
    pub success: bool,
}

/// One row to append to the event log.
pub struct CreateParams {
    pub uri: String,
    pub is_write: bool,
    pub language: Option<String>,
    pub line_number: Option<i32>,
    pub cursor_pos: Option<i32>,
    pub user_id: UserId,
    pub now: i64,
}

/// A persisted editor event.
pub struct Event {
    pub uri: String,
    pub is_write: bool,
    pub language: Option<String>,
    pub line_number: Option<i32>,
    pub cursor_pos: Option<i32>,
    pub user_id: UserId,
    pub created_at: i64,
}

/// The mathematical content of an [`Event`].
pub ghost struct EventView {
    pub uri: Seq<char>,
    pub is_write: bool,
    pub language: Option<Seq<char>>,
    pub line_number: Option<i32>,
    pub cursor_pos: Option<i32>,
    pub user_id: UserId,
    pub created_at: i64,
}

impl View for Event {
    type V = EventView;

    open spec fn view(&self) -> EventView {
        EventView {
            uri: self.uri@,
            is_write: self.is_write,
            language: opt_view(self.language),
            line_number: self.line_number,
            cursor_pos: self.cursor_pos,
            user_id: self.user_id,
            created_at: self.created_at,
        }
    }
}

/// The row that `p` describes.
pub open spec fn row_of(p: CreateParams) -> EventView {
    EventView {
        uri: p.uri@,
        is_write: p.is_write,
        language: opt_view(p.language),
        line_number: p.line_number,
        cursor_pos: p.cursor_pos,
        user_id: p.user_id,
        created_at: p.now,
    }
}

/// Append-only log of captured events, oldest first.
pub struct EventLog {
    rows: Vec<Event>,
}

impl View for EventLog {
    type V = Seq<EventView>;

    closed spec fn view(&self) -> Seq<EventView> {
        self.rows@.map_values(|e: Event| e@)
    }
}

impl EventLog {
    pub fn new() -> (l: Self)
        ensures
            l@ == Seq::<EventView>::empty(),
    {
        let l = EventLog { rows: Vec::new() };
        assert(l@ =~= Seq::<EventView>::empty());
        l
    }

    /// Number of rows.
    pub fn len(&self) -> (n: usize)
        ensures
            n == self@.len(),
    {
        self.rows.len()
    }

    /// Appends one row; no deduplication happens here.
    pub fn create(&mut self, p: CreateParams)
        ensures
            final(self)@ == old(self)@.push(row_of(p)),
    {
        let CreateParams { uri, is_write, language, line_number, cursor_pos, user_id, now } = p;
        self.rows.push(Event { uri, is_write, language, line_number, cursor_pos, user_id, created_at: now });
        assert(self@ =~= old(self)@.push(row_of(p)));
    }
}

/// Persists the event of an authenticated request, stamped with `now`.
pub fn capture(log: &mut EventLog, auth_user: AuthUser, payload: CaptureRequest, now: i64) -> (r: CaptureResponse)
    ensures
        r.success,
        final(log)@ == old(log)@.push(EventView {
            uri: payload.uri@,
            is_write: payload.is_write,
            language: opt_view(payload.language),
            line_number: payload.line_number,
            cursor_pos: payload.cursor_pos,
            user_id: auth_user.id,
            created_at: now,
        }),
{
    let CaptureRequest { uri, is_write, language, line_number, cursor_pos } = payload;
    log.create(CreateParams { uri, is_write, language, line_number, cursor_pos, user_id: auth_user.id, now });
    CaptureResponse { success: true }
}

} // verus!
