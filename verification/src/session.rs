//! The editor session and its modal command dispatcher: one key event at
//! a time mutates the buffer, cursor, selection, history and logs, under
//! the session invariant — the buffer never becomes empty, and the
//! cursor always addresses a valid position for the active mode.

use vstd::prelude::*;
use crate::history::DiffHistory;
use crate::keys::Key;
use crate::keys::KeyInput;
use crate::keys::Mode;
use crate::keys::Pending;
use crate::keys::log_command;
use crate::motion::buf_view;

verus! {

/// How many nested replays (repeat inside macro and the like) a single
/// key may trigger.
pub const REPLAY_FUEL: u64 = 3;

/// What the caller must do after a command: persist the buffer, or hand
/// the session's clipboard text to the system clipboard.
#[derive(Clone, Copy, PartialEq, Eq, Structural, Debug)]
pub struct Effects {
    pub save: bool,
    pub clip_write: bool,
}

/// The whole editing session.
pub struct Session {
    pub file_data: Vec<Vec<char>>,
    pub file_name: Vec<char>,
    pub cursor_x: usize,
    pub cursor_y: usize,
    pub visual_x: usize,
    pub visual_y: usize,
    pub mode: Mode,
    pub prev_keys: Pending,
    pub last_command: Vec<KeyInput>,
    pub recording: bool,
    pub search_string: Vec<char>,
    pub searching: bool,
    pub macro_command: Vec<KeyInput>,
    pub macro_recording: bool,
    pub history: DiffHistory,
    pub pos: (usize, usize),
    pub clipboard: Vec<char>,
}

/// The visual anchor addresses a valid position of its row.
pub open spec fn visual_ok(s: Session) -> bool {
    let b = buf_view(s.file_data@);
    &&& (s.visual_y as int) < b.len()
    &&& (s.visual_x == 0 || (s.visual_x as int) < b[s.visual_y as int].len())
}

/// The column the cursor takes when clamped to the characters of line
/// `l`: zero on an empty line, at most the last column otherwise.
pub open spec fn clamp_col(l: Seq<char>, x: int) -> int {
    if l.len() == 0 {
        0
    } else if x > l.len() - 1 {
        l.len() - 1
    } else {
        x
    }
}

/// What the character-delete key leaves behind in normal mode with no
/// pending prefix: on a non-empty line, the character at the clamped
/// cursor column is removed and becomes the clipboard text, the state
/// before the command is pushed for undo, and a save and a clipboard
/// write are requested; an empty line changes nothing.
pub open spec fn delete_char_post(pre: Session, post: Session, eff: Effects) -> bool {
    let b = buf_view(pre.file_data@);
    let cy = pre.cursor_y as int;
    let cx = clamp_col(b[cy], pre.cursor_x as int);
    &&& post.mode is Normal
    &&& post.prev_keys is Empty
    &&& post.cursor_y == pre.cursor_y
    &&& if b[cy].len() > 0 {
        let nb = b.update(cy, b[cy].remove(cx));
        &&& buf_view(post.file_data@) == nb
        &&& post.clipboard@ == seq![b[cy][cx]]
        &&& post.history.undo_view() == pre.history.undo_view().push(
            (b, (pre.cursor_x as int, pre.cursor_y as int)),
        )
        &&& post.cursor_x as int == clamp_col(nb[cy], cx)
        &&& eff.save && eff.clip_write
    } else {
        &&& buf_view(post.file_data@) == b
        &&& post.cursor_x == 0
        &&& post.history.undo_view() == pre.history.undo_view()
        &&& !eff.save && !eff.clip_write
    }
}

/// What the line-delete command (the d prefix completed by d) leaves
/// behind: the cursor's row is removed (one empty line remains when it
/// was the only row), the clipboard holds that row behind the leading
/// newline mark for whole-line paste, the cursor clamps into the new
/// buffer, the prefix is cleared, the state before the command is pushed
/// for undo, and a save and a clipboard write are requested.
pub open spec fn delete_line_post(pre: Session, post: Session, eff: Effects) -> bool {
    let b = buf_view(pre.file_data@);
    let cy = pre.cursor_y as int;
    let nb = if b.len() == 1 {
        seq![Seq::<char>::empty()]
    } else {
        b.remove(cy)
    };
    let ny = if cy >= nb.len() {
        nb.len() - 1
    } else {
        cy
    };
    &&& buf_view(post.file_data@) == nb
    &&& post.clipboard@ == seq!['\n'] + b[cy]
    &&& post.cursor_y as int == ny
    &&& post.cursor_x as int == clamp_col(nb[ny], pre.cursor_x as int)
    &&& post.prev_keys is Empty
    &&& post.mode is Normal
    &&& post.history.undo_view() == pre.history.undo_view().push(
        (b, (pre.cursor_x as int, pre.cursor_y as int)),
    )
    &&& eff.save && eff.clip_write
}

/// What a plain character key leaves behind in insert mode: the
/// character is inserted at the cursor column and the cursor advances
/// past it; no history entry, no effects.
pub open spec fn insert_char_post(pre: Session, post: Session, eff: Effects, c: char) -> bool {
    let b = buf_view(pre.file_data@);
    let cy = pre.cursor_y as int;
    &&& buf_view(post.file_data@) == b.update(cy, b[cy].insert(pre.cursor_x as int, c))
    &&& post.cursor_x as int == pre.cursor_x + 1
    &&& post.cursor_y == pre.cursor_y
    &&& post.mode is Insert
    &&& post.history.undo_view() == pre.history.undo_view()
    &&& eff == (Effects { save: false, clip_write: false })
}

/// What the indent keys leave behind in normal mode with no pending
/// prefix: one indent unit is added to (or removed from) the cursor's
/// row, the cursor moves to the row's first non-blank column (clamped),
/// the pre-command state is pushed for undo, and a save is requested.
pub open spec fn indent_post(pre: Session, post: Session, eff: Effects, deeper: bool) -> bool {
    let b = buf_view(pre.file_data@);
    let cy = pre.cursor_y as int;
    let nl = if deeper {
        crate::text::indent_unit() + b[cy]
    } else {
        crate::text::reduce_indent_spec(b[cy])
    };
    let nb = b.update(cy, nl);
    &&& buf_view(post.file_data@) == nb
    &&& post.cursor_y == pre.cursor_y
    &&& post.cursor_x as int == clamp_col(nl, crate::text::leading_ws(nl))
    &&& post.mode is Normal
    &&& post.prev_keys is Empty
    &&& post.history.undo_view() == pre.history.undo_view().push(
        (b, (pre.cursor_x as int, pre.cursor_y as int)),
    )
    &&& eff.save && !eff.clip_write
}

/// What the undo key leaves behind in normal mode with no pending
/// prefix: one `undo_step` transition on the history together with the
/// present state — with an empty undo stack nothing moves — after which
/// the restored snapshot is the buffer (one empty line is kept when the
/// snapshot had none) and the restored cursor clamps into it; a plain
/// save is requested.
pub open spec fn undo_post(pre: Session, post: Session, eff: Effects) -> bool {
    let b = buf_view(pre.file_data@);
    let cur = (b, (pre.cursor_x as int, pre.cursor_y as int));
    let s = crate::history::undo_step(pre.history.undo_view(), pre.history.redo_view(), cur);
    let rb = if s.2.0.len() == 0 {
        seq![Seq::<char>::empty()]
    } else {
        s.2.0
    };
    let ry = if s.2.1.1 >= rb.len() {
        rb.len() - 1
    } else {
        s.2.1.1
    };
    &&& post.history.undo_view() == s.0
    &&& post.history.redo_view() == s.1
    &&& buf_view(post.file_data@) == rb
    &&& post.cursor_y as int == ry
    &&& post.cursor_x as int == clamp_col(rb[ry], s.2.1.0)
    &&& post.mode is Normal
    &&& post.prev_keys is Empty
    &&& eff.save && !eff.clip_write
}

/// What the redo key leaves behind: the mirror of `undo_post`, one
/// `redo_step` transition on the history and the present state.
pub open spec fn redo_post(pre: Session, post: Session, eff: Effects) -> bool {
    let b = buf_view(pre.file_data@);
    let cur = (b, (pre.cursor_x as int, pre.cursor_y as int));
    let s = crate::history::redo_step(pre.history.undo_view(), pre.history.redo_view(), cur);
    let rb = if s.2.0.len() == 0 {
        seq![Seq::<char>::empty()]
    } else {
        s.2.0
    };
    let ry = if s.2.1.1 >= rb.len() {
        rb.len() - 1
    } else {
        s.2.1.1
    };
    &&& post.history.undo_view() == s.0
    &&& post.history.redo_view() == s.1
    &&& buf_view(post.file_data@) == rb
    &&& post.cursor_y as int == ry
    &&& post.cursor_x as int == clamp_col(rb[ry], s.2.1.0)
    &&& post.mode is Normal
    &&& post.prev_keys is Empty
    &&& eff.save && !eff.clip_write
}

/// What the paste keys leave behind in normal mode with no pending
/// prefix: the clipboard text is pasted before the cursor, or after it
/// with the cursor first clamped to the last character, exactly as
/// `paste_spec` describes; the cursor clamps into the result, the
/// pre-command state is pushed for undo, and a save is requested.
pub open spec fn paste_post(pre: Session, post: Session, eff: Effects, after: bool) -> bool {
    let b = buf_view(pre.file_data@);
    let cy = pre.cursor_y as int;
    let px = if after && b[cy].len() != 0 && pre.cursor_x >= b[cy].len() {
        b[cy].len() - 1
    } else {
        pre.cursor_x as int
    };
    let nb = crate::edit::paste_spec(b, px, cy, pre.clipboard@, after);
    let ny = if cy >= nb.len() {
        nb.len() - 1
    } else {
        cy
    };
    &&& buf_view(post.file_data@) == nb
    &&& post.cursor_y as int == ny
    &&& post.cursor_x as int == clamp_col(nb[ny], px)
    &&& post.mode is Normal
    &&& post.prev_keys is Empty
    &&& post.history.undo_view() == pre.history.undo_view().push(
        (b, (pre.cursor_x as int, pre.cursor_y as int)),
    )
    &&& eff.save && !eff.clip_write
}

/// What the comment-toggle command (the g prefix completed by c) leaves
/// behind: the cursor's row gains or loses the file type's comment
/// token as `toggle_comment_spec` describes, the cursor moves to the
/// row's first non-blank column (clamped), the prefix is cleared, the
/// pre-command state is pushed for undo, and a save is requested.
pub open spec fn toggle_comment_line_post(pre: Session, post: Session, eff: Effects) -> bool {
    let b = buf_view(pre.file_data@);
    let cy = pre.cursor_y as int;
    let token = crate::render::resolved_token(pre.file_name@);
    let nl = crate::text::toggle_comment_spec(b[cy], token);
    let nb = b.update(cy, nl);
    &&& buf_view(post.file_data@) == nb
    &&& post.cursor_y == pre.cursor_y
    &&& post.cursor_x as int == clamp_col(nl, crate::text::leading_ws(nl))
    &&& post.mode is Normal
    &&& post.prev_keys is Empty
    &&& post.history.undo_view() == pre.history.undo_view().push(
        (b, (pre.cursor_x as int, pre.cursor_y as int)),
    )
    &&& eff.save && !eff.clip_write
}

/// What the line-yank command (the y prefix completed by y) leaves
/// behind: the clipboard holds the cursor's row behind the leading
/// newline mark, nothing else changes, and only a clipboard write is
/// requested.
pub open spec fn yank_line_post(pre: Session, post: Session, eff: Effects) -> bool {
    let b = buf_view(pre.file_data@);
    let cy = pre.cursor_y as int;
    &&& buf_view(post.file_data@) == b
    &&& post.clipboard@ == seq!['\n'] + b[cy]
    &&& post.cursor_x == pre.cursor_x
    &&& post.cursor_y == pre.cursor_y
    &&& post.mode is Normal
    &&& post.prev_keys is Empty
    &&& post.history.undo_view() == pre.history.undo_view()
    &&& !eff.save && eff.clip_write
}

/// What the substitute key leaves behind in normal mode with no pending
/// prefix: the character at the cursor is removed when the cursor
/// stands on one, the session enters insert mode at the same position,
/// and the pre-command state is pushed for undo; no effects.
pub open spec fn substitute_post(pre: Session, post: Session, eff: Effects) -> bool {
    let b = buf_view(pre.file_data@);
    let cy = pre.cursor_y as int;
    let cx = pre.cursor_x as int;
    let nb = if cx < b[cy].len() {
        b.update(cy, b[cy].remove(cx))
    } else {
        b
    };
    &&& buf_view(post.file_data@) == nb
    &&& post.cursor_x == pre.cursor_x
    &&& post.cursor_y == pre.cursor_y
    &&& post.mode is Insert
    &&& post.prev_keys is Empty
    &&& post.history.undo_view() == pre.history.undo_view().push(
        (b, (pre.cursor_x as int, pre.cursor_y as int)),
    )
    &&& eff == (Effects { save: false, clip_write: false })
}

/// What the open-line commands leave behind: a row holding only the
/// cursor row's indentation (one unit deeper when the row ends with an
/// opening parenthesis or brace) is inserted below or above the
/// cursor's row, the cursor moves onto it at the indentation column in
/// insert mode, and the pre-command state is pushed for undo.
pub open spec fn open_line_post(pre: Session, post: Session, eff: Effects, below: bool) -> bool {
    let b = buf_view(pre.file_data@);
    let cy = pre.cursor_y as int;
    let l = b[cy];
    let deeper = l.len() > 0 && (l.last() == '(' || l.last() == '{');
    let ind = crate::text::leading_ws(l);
    let nl = crate::edit::spaces(
        if deeper {
            ind + 4
        } else {
            ind
        },
    );
    let at = if below {
        cy + 1
    } else {
        cy
    };
    let nb = b.insert(at, nl);
    &&& buf_view(post.file_data@) == nb
    &&& post.cursor_y as int == at
    &&& post.cursor_x as int == nl.len()
    &&& post.mode is Insert
    &&& post.prev_keys is Empty
    &&& post.history.undo_view() == pre.history.undo_view().push(
        (b, (pre.cursor_x as int, pre.cursor_y as int)),
    )
    &&& eff == (Effects { save: false, clip_write: false })
}

/// What deleting a visual selection leaves behind (the d key in either
/// visual mode, with the cursor first clamped to the last character in
/// the character-wise mode): the selection is cut as
/// `delete_visual_spec` describes and copied as `copy_visual_spec`
/// describes, the cursor moves to the normalized begin clamped into the
/// new buffer, the session returns to normal mode, the pre-command
/// state is pushed for undo, and a save and a clipboard write are
/// requested.
pub open spec fn visual_delete_post(
    pre: Session,
    post: Session,
    eff: Effects,
    linewise: bool,
) -> bool {
    let b = buf_view(pre.file_data@);
    let cy = pre.cursor_y as int;
    let px = if !linewise && b[cy].len() != 0 && pre.cursor_x >= b[cy].len() {
        b[cy].len() - 1
    } else {
        pre.cursor_x as int
    };
    let nb = crate::edit::delete_visual_spec(
        b,
        px,
        cy,
        pre.visual_x as int,
        pre.visual_y as int,
        linewise,
    );
    let my = if cy <= pre.visual_y {
        cy
    } else {
        pre.visual_y as int
    };
    let ny = if my >= nb.len() {
        nb.len() - 1
    } else {
        my
    };
    let bx = if px <= pre.visual_x {
        px
    } else {
        pre.visual_x as int
    };
    &&& buf_view(post.file_data@) == nb
    &&& post.clipboard@ == crate::edit::copy_visual_spec(
        b,
        px,
        cy,
        pre.visual_x as int,
        pre.visual_y as int,
        linewise,
    )
    &&& post.cursor_y as int == ny
    &&& post.cursor_x as int == clamp_col(nb[ny], bx)
    &&& post.mode is Normal
    &&& post.history.undo_view() == pre.history.undo_view().push(
        (b, (pre.pos.0 as int, pre.pos.1 as int)),
    )
    &&& eff.save && eff.clip_write
}

/// What yanking a visual selection leaves behind (the y key in either
/// visual mode): the buffer is unchanged, the clipboard holds the
/// selection as `copy_visual_spec` describes, the cursor moves to the
/// normalized begin, the session returns to normal mode, and a save and
/// a clipboard write are requested.
pub open spec fn visual_yank_post(
    pre: Session,
    post: Session,
    eff: Effects,
    linewise: bool,
) -> bool {
    let b = buf_view(pre.file_data@);
    let cy = pre.cursor_y as int;
    let px = if !linewise && b[cy].len() != 0 && pre.cursor_x >= b[cy].len() {
        b[cy].len() - 1
    } else {
        pre.cursor_x as int
    };
    let my = if cy <= pre.visual_y {
        cy
    } else {
        pre.visual_y as int
    };
    let mx = if !linewise && px > pre.visual_x {
        pre.visual_x as int
    } else {
        px
    };
    &&& buf_view(post.file_data@) == b
    &&& post.clipboard@ == crate::edit::copy_visual_spec(
        b,
        px,
        cy,
        pre.visual_x as int,
        pre.visual_y as int,
        linewise,
    )
    &&& post.cursor_y as int == my
    &&& post.cursor_x as int == clamp_col(b[my], mx)
    &&& post.mode is Normal
    &&& post.history.undo_view() == pre.history.undo_view().push(
        (b, (pre.pos.0 as int, pre.pos.1 as int)),
    )
    &&& eff.save && eff.clip_write
}

/// What toggling comments over a visual selection leaves behind (the g
/// prefix completed by c in either visual mode): the selected rows
/// change as `toggle_comments_spec` describes, the cursor moves to the
/// first selected row (column clamped), the prefix is cleared, the
/// session returns to normal mode, the pre-command state is pushed for
/// undo, and a save is requested.
pub open spec fn visual_toggle_comments_post(pre: Session, post: Session, eff: Effects) -> bool {
    let b = buf_view(pre.file_data@);
    let cy = pre.cursor_y as int;
    let vy = pre.visual_y as int;
    let by = if cy <= vy {
        cy
    } else {
        vy
    };
    let ey = if cy <= vy {
        vy
    } else {
        cy
    };
    let token = crate::render::resolved_token(pre.file_name@);
    let nb = crate::edit::toggle_comments_spec(b, token, by, ey);
    &&& buf_view(post.file_data@) == nb
    &&& post.cursor_y as int == by
    &&& post.cursor_x as int == clamp_col(nb[by], pre.cursor_x as int)
    &&& post.mode is Normal
    &&& post.prev_keys is Empty
    &&& post.history.undo_view() == pre.history.undo_view().push(
        (b, (pre.pos.0 as int, pre.pos.1 as int)),
    )
    &&& eff.save && !eff.clip_write
}

/// What Enter leaves behind in insert mode: exactly the split that
/// `split_line_spec` describes — head kept, auto-indented tail on the
/// next row, a closing bracket added only when none follows — with the
/// cursor on the indented tail, no history entry, and no effects.
pub open spec fn split_enter_post(pre: Session, post: Session, eff: Effects) -> bool {
    let r = crate::edit::split_line_spec(
        buf_view(pre.file_data@),
        pre.cursor_x as int,
        pre.cursor_y as int,
    );
    &&& buf_view(post.file_data@) == r.0
    &&& post.cursor_x as int == r.1
    &&& post.cursor_y as int == r.2
    &&& r.1 <= r.0[r.2].len()
    &&& r.2 < r.0.len()
    &&& post.mode is Insert
    &&& post.history.undo_view() == pre.history.undo_view()
    &&& eff == (Effects { save: false, clip_write: false })
}

impl Session {
    /// The session invariant: the buffer holds at least one line, the
    /// cursor row exists, the cursor column addresses a character (or
    /// column zero of an empty line) — or, in insert mode, at most the
    /// append position — and in a visual mode the anchor is valid too.
    pub open spec fn wf(&self) -> bool {
        let b = buf_view(self.file_data@);
        &&& b.len() >= 1
        &&& (self.cursor_y as int) < b.len()
        &&& (if self.mode is Insert {
            self.cursor_x <= b[self.cursor_y as int].len()
        } else {
            self.cursor_x == 0 || (self.cursor_x as int) < b[self.cursor_y as int].len()
        })
        &&& ((self.mode is VisualChar || self.mode is VisualLine) ==> visual_ok(*self))
    }

    /// Opens a session on the loaded lines; an empty file becomes one
    /// empty line.
    pub fn new_session(file_data: Vec<Vec<char>>, file_name: Vec<char>) -> (s: Session)
        ensures
            s.wf(),
            s.mode is Normal,
            buf_view(s.file_data@) == (if file_data@.len() == 0 {
                seq![Seq::<char>::empty()]
            } else {
                buf_view(file_data@)
            }),
            s.file_name@ == file_name@,
            s.history.undo_view().len() == 0,
            s.history.redo_view().len() == 0,
            s.cursor_x == 0 && s.cursor_y == 0 && s.visual_x == 0 && s.visual_y == 0,
            s.prev_keys is Empty,
            s.last_command@ == Seq::<KeyInput>::empty(),
            s.recording,
            s.search_string@ == Seq::<char>::empty(),
            !s.searching,
            s.macro_command@ == Seq::<KeyInput>::empty(),
            !s.macro_recording,
            s.pos == (0usize, 0usize),
            s.clipboard@ == Seq::<char>::empty(),
    {
        let mut fd = file_data;
        if fd.len() == 0 {
            fd.push(Vec::new());
            proof {
                assert(buf_view(fd@) =~= seq![Seq::<char>::empty()]);
            }
        }
        Session {
            file_data: fd,
            file_name,
            cursor_x: 0,
            cursor_y: 0,
            visual_x: 0,
            visual_y: 0,
            mode: Mode::Normal,
            prev_keys: Pending::Empty,
            last_command: Vec::new(),
            recording: true,
            search_string: Vec::new(),
            searching: false,
            macro_command: Vec::new(),
            macro_recording: false,
            history: DiffHistory::new(),
            pos: (0, 0),
            clipboard: Vec::new(),
        }
    }

    /// Feeds one key event into the session: records it for an active
    /// macro, dispatches it, and hands back what the caller must persist.
    pub fn feed_key(&mut self, code: Key, ctrl: bool, term_height: usize) -> (eff: Effects)
        requires
            old(self).wf(),
        ensures
            final(self).wf(),
            final(self).file_name@ == old(self).file_name@,
            (old(self).mode is Normal && code == Key::Esc) ==> (final(self).prev_keys
                is Empty && final(self).mode is Normal && buf_view(final(self).file_data@)
                == buf_view(old(self).file_data@)),
            (old(self).mode is Insert && code == Key::Esc) ==> final(self).mode is Normal,
            (old(self).mode is Normal && old(self).prev_keys is Empty && !ctrl && code
                == Key::Char('x')) ==> delete_char_post(*old(self), *final(self), eff),
            (old(self).mode is Normal && old(self).prev_keys is D && !ctrl && code == Key::Char(
                'd',
            )) ==> delete_line_post(*old(self), *final(self), eff),
            (old(self).mode is Insert && code == Key::Enter) ==> split_enter_post(
                *old(self),
                *final(self),
                eff,
            ),
            (old(self).mode is Normal && old(self).prev_keys is Empty && !ctrl && code
                == Key::Char('>')) ==> indent_post(*old(self), *final(self), eff, true),
            (old(self).mode is Normal && old(self).prev_keys is Empty && !ctrl && code
                == Key::Char('<')) ==> indent_post(*old(self), *final(self), eff, false),
            old(self).mode is Insert ==> (code matches Key::Char(c) ==> insert_char_post(
                *old(self),
                *final(self),
                eff,
                c,
            )),
            (old(self).mode is Normal && old(self).prev_keys is Empty && code == Key::Char(
                'u',
            )) ==> undo_post(*old(self), *final(self), eff),
            (old(self).mode is Normal && old(self).prev_keys is Empty && ctrl && code
                == Key::Char('r')) ==> redo_post(*old(self), *final(self), eff),
            (old(self).mode is Normal && old(self).prev_keys is Empty && code == Key::Char(
                'P',
            )) ==> paste_post(*old(self), *final(self), eff, false),
            (old(self).mode is Normal && old(self).prev_keys is Empty && code == Key::Char(
                'p',
            )) ==> paste_post(*old(self), *final(self), eff, true),
            (old(self).mode is Normal && old(self).prev_keys is G && code == Key::Char('c'))
                ==> toggle_comment_line_post(*old(self), *final(self), eff),
            (old(self).mode is Normal && old(self).prev_keys is Empty && !ctrl && code
                == Key::Char('s')) ==> substitute_post(*old(self), *final(self), eff),
            (old(self).mode is Normal && old(self).prev_keys is Empty && code == Key::Char(
                'o',
            )) ==> open_line_post(*old(self), *final(self), eff, true),
            (old(self).mode is Normal && old(self).prev_keys is Empty && code == Key::Char(
                'O',
            )) ==> open_line_post(*old(self), *final(self), eff, false),
            (old(self).mode is Normal && old(self).prev_keys is Y && code == Key::Char('y'))
                ==> yank_line_post(*old(self), *final(self), eff),
            (old(self).mode is VisualChar && old(self).prev_keys is Empty && !ctrl && code
                == Key::Char('y')) ==> visual_yank_post(*old(self), *final(self), eff, false),
            (old(self).mode is VisualChar && old(self).prev_keys is Empty && !ctrl && code
                == Key::Char('d')) ==> visual_delete_post(*old(self), *final(self), eff, false),
            (old(self).mode is VisualLine && old(self).prev_keys is Empty && !ctrl && code
                == Key::Char('y')) ==> visual_yank_post(*old(self), *final(self), eff, true),
            (old(self).mode is VisualLine && old(self).prev_keys is Empty && !ctrl && code
                == Key::Char('d')) ==> visual_delete_post(*old(self), *final(self), eff, true),
            ((old(self).mode is VisualChar || old(self).mode is VisualLine) && old(
                self,
            ).prev_keys is G && code == Key::Char('c')) ==> visual_toggle_comments_post(
                *old(self),
                *final(self),
                eff,
            ),
    {
        if self.macro_recording && !(matches!(self.mode, Mode::Normal) && code == Key::Char('q')) {
            self.macro_command.push(KeyInput { key: code, ctrl });
        }
        self.send_command(code, ctrl, term_height, REPLAY_FUEL)
    }

    /// Dispatches one key event in the active mode, replaying the macro
    /// or the last command where the key asks for it, and clamps the
    /// cursor afterwards. The per-key clauses below pin the buffer, the
    /// cursor, the clipboard, the history and the requested effects of
    /// the editing commands; Escape in normal mode always clears the
    /// pending key prefix and leaves the buffer alone.
    pub fn send_command(&mut self, code: Key, ctrl: bool, term_height: usize, fuel: u64) -> (eff:
        Effects)
        requires
            old(self).wf(),
        ensures
            final(self).wf(),
            final(self).file_name@ == old(self).file_name@,
            (old(self).mode is Normal && code == Key::Esc) ==> (final(self).prev_keys
                is Empty && final(self).mode is Normal && buf_view(final(self).file_data@)
                == buf_view(old(self).file_data@)),
            (old(self).mode is Insert && code == Key::Esc) ==> final(self).mode is Normal,
            (old(self).mode is Normal && old(self).prev_keys is Empty && !ctrl && (code
                == Key::Char('h') || code == Key::Char('j') || code == Key::Char('k') || code
                == Key::Char('l'))) ==> (buf_view(final(self).file_data@) == buf_view(
                old(self).file_data@,
            ) && final(self).history.undo_view() == old(self).history.undo_view()
                && eff.save == false),
            (old(self).mode is Normal && old(self).prev_keys is Empty && !ctrl && code
                == Key::Char('x')) ==> delete_char_post(*old(self), *final(self), eff),
            (old(self).mode is Normal && old(self).prev_keys is D && !ctrl && code == Key::Char(
                'd',
            )) ==> delete_line_post(*old(self), *final(self), eff),
            (old(self).mode is Insert && code == Key::Enter) ==> split_enter_post(
                *old(self),
                *final(self),
                eff,
            ),
            (old(self).mode is Normal && old(self).prev_keys is Empty && !ctrl && code
                == Key::Char('>')) ==> indent_post(*old(self), *final(self), eff, true),
            (old(self).mode is Normal && old(self).prev_keys is Empty && !ctrl && code
                == Key::Char('<')) ==> indent_post(*old(self), *final(self), eff, false),
            old(self).mode is Insert ==> (code matches Key::Char(c) ==> insert_char_post(
                *old(self),
                *final(self),
                eff,
                c,
            )),
            (old(self).mode is Normal && old(self).prev_keys is Empty && code == Key::Char(
                'u',
            )) ==> undo_post(*old(self), *final(self), eff),
            (old(self).mode is Normal && old(self).prev_keys is Empty && ctrl && code
                == Key::Char('r')) ==> redo_post(*old(self), *final(self), eff),
            (old(self).mode is Normal && old(self).prev_keys is Empty && code == Key::Char(
                'P',
            )) ==> paste_post(*old(self), *final(self), eff, false),
            (old(self).mode is Normal && old(self).prev_keys is Empty && code == Key::Char(
                'p',
            )) ==> paste_post(*old(self), *final(self), eff, true),
            (old(self).mode is Normal && old(self).prev_keys is G && code == Key::Char('c'))
                ==> toggle_comment_line_post(*old(self), *final(self), eff),
            (old(self).mode is Normal && old(self).prev_keys is Empty && !ctrl && code
                == Key::Char('s')) ==> substitute_post(*old(self), *final(self), eff),
            (old(self).mode is Normal && old(self).prev_keys is Empty && code == Key::Char(
                'o',
            )) ==> open_line_post(*old(self), *final(self), eff, true),
            (old(self).mode is Normal && old(self).prev_keys is Empty && code == Key::Char(
                'O',
            )) ==> open_line_post(*old(self), *final(self), eff, false),
            (old(self).mode is Normal && old(self).prev_keys is Y && code == Key::Char('y'))
                ==> yank_line_post(*old(self), *final(self), eff),
            (old(self).mode is VisualChar && old(self).prev_keys is Empty && !ctrl && code
                == Key::Char('y')) ==> visual_yank_post(*old(self), *final(self), eff, false),
            (old(self).mode is VisualChar && old(self).prev_keys is Empty && !ctrl && code
                == Key::Char('d')) ==> visual_delete_post(*old(self), *final(self), eff, false),
            (old(self).mode is VisualLine && old(self).prev_keys is Empty && !ctrl && code
                == Key::Char('y')) ==> visual_yank_post(*old(self), *final(self), eff, true),
            (old(self).mode is VisualLine && old(self).prev_keys is Empty && !ctrl && code
                == Key::Char('d')) ==> visual_delete_post(*old(self), *final(self), eff, true),
            ((old(self).mode is VisualChar || old(self).mode is VisualLine) && old(
                self,
            ).prev_keys is G && code == Key::Char('c')) ==> visual_toggle_comments_post(
                *old(self),
                *final(self),
                eff,
            ),
        decreases fuel,
    {
        let mut eff = Effects { save: false, clip_write: false };
        match self.mode {
            Mode::Normal => {
                self.pos = (self.cursor_x, self.cursor_y);
                self.searching = false;
                let replay_macro = matches!(self.prev_keys, Pending::Empty) && code == Key::Char(
                    ',',
                );
                let replay_last = matches!(self.prev_keys, Pending::Empty) && code == Key::Char(
                    '.',
                );
                if replay_macro {
                    if fuel > 0 {
                        self.recording = false;
                        let entries = clone_keys(&self.macro_command);
                        let saved = clone_keys(&self.macro_command);
                        self.macro_command = Vec::new();
                        let mut i: usize = 0;
                        while i < entries.len()
                            invariant
                                self.wf(),
                                self.file_name@ == old(self).file_name@,
                                i <= entries@.len(),
                                fuel >= 1,
                            decreases entries@.len() - i,
                        {
                            let e = entries[i];
                            let e2 = self.send_command(e.key, e.ctrl, term_height, fuel - 1);
                            eff = Effects {
                                save: eff.save || e2.save,
                                clip_write: eff.clip_write || e2.clip_write,
                            };
                            i = i + 1;
                        }
                        self.macro_command = saved;
                        self.recording = true;
                    }
                } else if replay_last {
                    if fuel > 0 {
                        self.recording = false;
                        let entries = clone_keys(&self.last_command);
                        self.last_command = Vec::new();
                        let mut i: usize = 0;
                        while i < entries.len()
                            invariant
                                self.wf(),
                                self.file_name@ == old(self).file_name@,
                                i <= entries@.len(),
                                fuel >= 1,
                            decreases entries@.len() - i,
                        {
                            let e = entries[i];
                            let e2 = self.send_command(e.key, e.ctrl, term_height, fuel - 1);
                            eff = Effects {
                                save: eff.save || e2.save,
                                clip_write: eff.clip_write || e2.clip_write,
                            };
                            i = i + 1;
                        }
                        self.last_command = entries;
                        self.recording = true;
                    }
                } else {
                    eff = self.dispatch_normal(code, ctrl, term_height);
                }
            },
            Mode::Insert => {
                eff = self.dispatch_insert(code, ctrl);
            },
            Mode::Search => {
                eff = self.dispatch_search(code, ctrl);
            },
            Mode::VisualChar => {
                eff = self.dispatch_visual_char(code, ctrl, term_height);
            },
            Mode::VisualLine => {
                eff = self.dispatch_visual_line(code, ctrl, term_height);
            },
        }
        let ghost mid = *self;
        let flen = self.file_data.len();
        self.cursor_y = crate::motion::reset_cursor_end_file(flen, self.cursor_y);
        match self.mode {
            Mode::Insert => {
                let ll = self.file_data[self.cursor_y].len();
                if self.cursor_x > ll {
                    self.cursor_x = ll;
                }
            },
            _ => {
                self.cursor_x = crate::motion::reset_cursor_end(
                    &self.file_data,
                    self.cursor_x,
                    self.cursor_y,
                );
            },
        }
        proof {
            // The final cursor clamp keeps every field the per-key
            // contracts pin: their cursors are already in range.
            let pre = *old(self);
            if pre.mode is Normal && pre.prev_keys is Empty && !ctrl && code == Key::Char('x') {
                assert(delete_char_post(pre, mid, eff));
                let b = buf_view(pre.file_data@);
                let cy = pre.cursor_y as int;
                assert(buf_view(mid.file_data@)[cy] == mid.file_data@[cy]@);
                assert(buf_view(mid.file_data@).len() == mid.file_data@.len());
                assert(self.cursor_y == mid.cursor_y);
                assert(self.cursor_x == mid.cursor_x);
                assert(delete_char_post(pre, *self, eff));
            }
            if pre.mode is Normal && pre.prev_keys is D && !ctrl && code == Key::Char('d') {
                assert(delete_line_post(pre, mid, eff));
                let ny = mid.cursor_y as int;
                assert(buf_view(mid.file_data@)[ny] == mid.file_data@[ny]@);
                assert(buf_view(mid.file_data@).len() == mid.file_data@.len());
                assert(self.cursor_y == mid.cursor_y);
                assert(self.cursor_x == mid.cursor_x);
                assert(delete_line_post(pre, *self, eff));
            }
            if pre.mode is Insert && code == Key::Enter {
                assert(split_enter_post(pre, mid, eff));
                let ny = mid.cursor_y as int;
                assert(buf_view(mid.file_data@)[ny] == mid.file_data@[ny]@);
                assert(buf_view(mid.file_data@).len() == mid.file_data@.len());
                assert(self.cursor_y == mid.cursor_y);
                assert(self.cursor_x == mid.cursor_x);
                assert(split_enter_post(pre, *self, eff));
            }
            if pre.mode is Normal && pre.prev_keys is Empty && !ctrl && (code == Key::Char('>')
                || code == Key::Char('<')) {
                let deeper = code == Key::Char('>');
                assert(indent_post(pre, mid, eff, deeper));
                let cy = pre.cursor_y as int;
                assert(buf_view(mid.file_data@)[cy] == mid.file_data@[cy]@);
                assert(buf_view(mid.file_data@).len() == mid.file_data@.len());
                assert(self.cursor_y == mid.cursor_y);
                assert(self.cursor_x == mid.cursor_x);
                assert(indent_post(pre, *self, eff, deeper));
            }
            if pre.mode is Normal && pre.prev_keys is Empty && code == Key::Char('u') {
                assert(undo_post(pre, mid, eff));
                let ny = mid.cursor_y as int;
                assert(buf_view(mid.file_data@)[ny] == mid.file_data@[ny]@);
                assert(buf_view(mid.file_data@).len() == mid.file_data@.len());
                assert(self.cursor_y == mid.cursor_y);
                assert(self.cursor_x == mid.cursor_x);
                assert(undo_post(pre, *self, eff));
            }
            if pre.mode is Normal && pre.prev_keys is Empty && ctrl && code == Key::Char('r') {
                assert(redo_post(pre, mid, eff));
                let ny = mid.cursor_y as int;
                assert(buf_view(mid.file_data@)[ny] == mid.file_data@[ny]@);
                assert(buf_view(mid.file_data@).len() == mid.file_data@.len());
                assert(self.cursor_y == mid.cursor_y);
                assert(self.cursor_x == mid.cursor_x);
                assert(redo_post(pre, *self, eff));
            }
            if pre.mode is Normal && pre.prev_keys is Empty && (code == Key::Char('P') || code
                == Key::Char('p')) {
                let after = code == Key::Char('p');
                assert(paste_post(pre, mid, eff, after));
                let ny = mid.cursor_y as int;
                assert(buf_view(mid.file_data@)[ny] == mid.file_data@[ny]@);
                assert(buf_view(mid.file_data@).len() == mid.file_data@.len());
                assert(self.cursor_y == mid.cursor_y);
                assert(self.cursor_x == mid.cursor_x);
                assert(paste_post(pre, *self, eff, after));
            }
            if pre.mode is Normal && pre.prev_keys is G && code == Key::Char('c') {
                assert(toggle_comment_line_post(pre, mid, eff));
                let cy = pre.cursor_y as int;
                assert(buf_view(mid.file_data@)[cy] == mid.file_data@[cy]@);
                assert(buf_view(mid.file_data@).len() == mid.file_data@.len());
                assert(self.cursor_y == mid.cursor_y);
                assert(self.cursor_x == mid.cursor_x);
                assert(toggle_comment_line_post(pre, *self, eff));
            }
            if pre.mode is Normal && pre.prev_keys is Empty && !ctrl && code == Key::Char('s') {
                assert(substitute_post(pre, mid, eff));
                let cy = pre.cursor_y as int;
                assert(buf_view(mid.file_data@)[cy] == mid.file_data@[cy]@);
                assert(buf_view(mid.file_data@).len() == mid.file_data@.len());
                assert(self.cursor_y == mid.cursor_y);
                assert(self.cursor_x == mid.cursor_x);
                assert(substitute_post(pre, *self, eff));
            }
            if pre.mode is Normal && pre.prev_keys is Empty && (code == Key::Char('o') || code
                == Key::Char('O')) {
                let below = code == Key::Char('o');
                assert(open_line_post(pre, mid, eff, below));
                let ny = mid.cursor_y as int;
                assert(buf_view(mid.file_data@)[ny] == mid.file_data@[ny]@);
                assert(buf_view(mid.file_data@).len() == mid.file_data@.len());
                assert(self.cursor_y == mid.cursor_y);
                assert(self.cursor_x == mid.cursor_x);
                assert(open_line_post(pre, *self, eff, below));
            }
            if pre.mode is Normal && pre.prev_keys is Y && code == Key::Char('y') {
                assert(yank_line_post(pre, mid, eff));
                let cy = pre.cursor_y as int;
                assert(buf_view(mid.file_data@)[cy] == mid.file_data@[cy]@);
                assert(buf_view(mid.file_data@).len() == mid.file_data@.len());
                assert(self.cursor_y == mid.cursor_y);
                assert(self.cursor_x == mid.cursor_x);
                assert(yank_line_post(pre, *self, eff));
            }
            if (pre.mode is VisualChar || pre.mode is VisualLine) && pre.prev_keys is Empty
                && !ctrl && (code == Key::Char('y') || code == Key::Char('d')) {
                let lw = pre.mode is VisualLine;
                let ny = mid.cursor_y as int;
                assert(buf_view(mid.file_data@)[ny] == mid.file_data@[ny]@);
                assert(buf_view(mid.file_data@).len() == mid.file_data@.len());
                if code == Key::Char('y') {
                    assert(visual_yank_post(pre, mid, eff, lw));
                    assert(self.cursor_y == mid.cursor_y);
                    assert(self.cursor_x == mid.cursor_x);
                    assert(visual_yank_post(pre, *self, eff, lw));
                } else {
                    assert(visual_delete_post(pre, mid, eff, lw));
                    assert(self.cursor_y == mid.cursor_y);
                    assert(self.cursor_x == mid.cursor_x);
                    assert(visual_delete_post(pre, *self, eff, lw));
                }
            }
            if (pre.mode is VisualChar || pre.mode is VisualLine) && pre.prev_keys is G && code
                == Key::Char('c') {
                assert(visual_toggle_comments_post(pre, mid, eff));
                let ny = mid.cursor_y as int;
                assert(buf_view(mid.file_data@)[ny] == mid.file_data@[ny]@);
                assert(buf_view(mid.file_data@).len() == mid.file_data@.len());
                assert(self.cursor_y == mid.cursor_y);
                assert(self.cursor_x == mid.cursor_x);
                assert(visual_toggle_comments_post(pre, *self, eff));
            }
            if pre.mode is Insert {
                match code {
                    Key::Char(c) => {
                        assert(insert_char_post(pre, mid, eff, c));
                        let cy = pre.cursor_y as int;
                        assert(buf_view(mid.file_data@)[cy] == mid.file_data@[cy]@);
                        assert(buf_view(mid.file_data@).len() == mid.file_data@.len());
                        assert(self.cursor_y == mid.cursor_y);
                        assert(self.cursor_x == mid.cursor_x);
                        assert(insert_char_post(pre, *self, eff, c));
                    },
                    _ => {},
                }
            }
        }
        eff
    }

    /// Handles one key in insert mode: plain characters are inserted at
    /// the cursor; Enter splits the line with automatic indentation;
    /// Escape returns to normal mode and persists the buffer.
    fn dispatch_insert(&mut self, code: Key, ctrl: bool) -> (eff: Effects)
        requires
            old(self).wf(),
            old(self).mode is Insert,
        ensures
            final(self).file_data@.len() >= 1,
            final(self).cursor_y < final(self).file_data@.len(),
            final(self).file_name@ == old(self).file_name@,
            !(final(self).mode is VisualChar) && !(final(self).mode is VisualLine),
            code == Key::Esc ==> final(self).mode is Normal,
            code == Key::Enter ==> split_enter_post(*old(self), *final(self), eff),
            code matches Key::Char(c) ==> insert_char_post(*old(self), *final(self), eff, c),
    {
        let mut eff = Effects { save: false, clip_write: false };
        proof {
            assert(self.file_data.len() as int == self.file_data@.len());
            assert(buf_view(self.file_data@)[self.cursor_y as int]
                == self.file_data@[self.cursor_y as int]@);
        }
        if code == Key::Esc {
            self.mode = Mode::Normal;
            self.cursor_x = crate::motion::left(self.cursor_x);
            eff.save = true;
        } else if code == Key::BackTab {
            let line = crate::history::clone_line(&self.file_data[self.cursor_y]);
            let reduced = crate::text::reduce_indent(line);
            set_row(&mut self.file_data, self.cursor_y, reduced);
            if self.cursor_x >= 4 {
                self.cursor_x = self.cursor_x - 4;
            } else {
                self.cursor_x = 0;
            }
        } else if code == Key::Tab {
            let line = crate::history::clone_line(&self.file_data[self.cursor_y]);
            let increased = crate::text::increase_indent(line);
            set_row(&mut self.file_data, self.cursor_y, increased);
            let ll = self.file_data[self.cursor_y].len();
            proof {
                assert(buf_view(self.file_data@)[self.cursor_y as int]
                    == self.file_data@[self.cursor_y as int]@);
            }
            if ll >= 4 && self.cursor_x <= ll - 4 {
                self.cursor_x = self.cursor_x + 4;
            } else {
                self.cursor_x = ll;
            }
        } else if code == Key::Enter {
            let (nx, ny) = crate::edit::split_line(
                &mut self.file_data,
                self.cursor_x,
                self.cursor_y,
            );
            self.cursor_x = nx;
            self.cursor_y = ny;
        } else if code == Key::Backspace {
            if self.cursor_x > 0 {
                remove_row_char(&mut self.file_data, self.cursor_y, self.cursor_x - 1);
                self.cursor_x = crate::motion::left(self.cursor_x);
            }
        } else if code == Key::Delete {
            if self.cursor_x < self.file_data[self.cursor_y].len() {
                remove_row_char(&mut self.file_data, self.cursor_y, self.cursor_x);
            }
        } else {
            match code {
                Key::Char(c) => {
                    insert_row_char(&mut self.file_data, self.cursor_y, self.cursor_x, c);
                    let ll = self.file_data[self.cursor_y].len();
                    proof {
                        assert(buf_view(self.file_data@)[self.cursor_y as int]
                            == self.file_data@[self.cursor_y as int]@);
                        assert(self.cursor_x < ll);
                    }
                    self.cursor_x = self.cursor_x + 1;
                },
                _ => {},
            }
        }
        log_command(code, ctrl, &mut self.last_command, self.recording);
        eff
    }

    /// Handles one key in search mode: typing extends the live query,
    /// Backspace shortens it, Enter or Escape returns to normal mode;
    /// after every key the cursor jumps to the next occurrence.
    fn dispatch_search(&mut self, code: Key, ctrl: bool) -> (eff: Effects)
        requires
            old(self).wf(),
            old(self).mode is Search,
        ensures
            final(self).file_data@.len() >= 1,
            final(self).cursor_y < final(self).file_data@.len(),
            final(self).file_name@ == old(self).file_name@,
            !(final(self).mode is VisualChar) && !(final(self).mode is VisualLine),
            buf_view(final(self).file_data@) == buf_view(old(self).file_data@),
    {
        if code == Key::Esc {
            self.mode = Mode::Normal;
        } else if code == Key::Enter {
            self.mode = Mode::Normal;
        } else if code == Key::Backspace {
            let _ = self.search_string.pop();
        } else {
            match code {
                Key::Char(c) => {
                    self.search_string.push(c);
                },
                _ => {},
            }
        }
        match crate::search::find_next_occurrence(
            &self.file_data,
            self.cursor_x,
            self.cursor_y,
            &self.search_string,
        ) {
            Some(p) => {
                self.cursor_x = p.0;
                self.cursor_y = p.1;
            },
            None => {},
        }
        log_command(code, ctrl, &mut self.last_command, self.recording);
        Effects { save: false, clip_write: false }
    }
}


impl Session {
    /// Handles one key in normal mode: motions, edits, mode changes and
    /// the multi-key commands recognized through the pending prefix. A
    /// key that does not continue a pending prefix aborts the prefix
    /// without being interpreted itself; Escape clears the prefix and
    /// changes nothing else.
    #[verifier::rlimit(100)]
    fn dispatch_normal(&mut self, code: Key, ctrl: bool, term_height: usize) -> (eff: Effects)
        requires
            old(self).wf(),
            old(self).mode is Normal,
            old(self).pos == (old(self).cursor_x, old(self).cursor_y),
        ensures
            final(self).file_data@.len() >= 1,
            final(self).file_name@ == old(self).file_name@,
            (final(self).mode is VisualChar || final(self).mode is VisualLine) ==> visual_ok(
                *final(self),
            ),
            code == Key::Esc ==> (final(self).prev_keys is Empty && final(self).mode is Normal
                && buf_view(final(self).file_data@) == buf_view(old(self).file_data@)),
            (old(self).mode is Normal && old(self).prev_keys is Empty && !ctrl && (code
                == Key::Char('h') || code == Key::Char('j') || code == Key::Char('k') || code
                == Key::Char('l'))) ==> (buf_view(final(self).file_data@) == buf_view(
                old(self).file_data@,
            ) && final(self).history.undo_view() == old(self).history.undo_view()
                && eff.save == false),
            (old(self).prev_keys is Empty && !ctrl && code == Key::Char('x'))
                ==> delete_char_post(*old(self), *final(self), eff),
            (old(self).prev_keys is D && !ctrl && code == Key::Char('d')) ==> delete_line_post(
                *old(self),
                *final(self),
                eff,
            ),
            (old(self).prev_keys is Empty && !ctrl && code == Key::Char('>')) ==> indent_post(
                *old(self),
                *final(self),
                eff,
                true,
            ),
            (old(self).prev_keys is Empty && !ctrl && code == Key::Char('<')) ==> indent_post(
                *old(self),
                *final(self),
                eff,
                false,
            ),
            (old(self).prev_keys is Empty && code == Key::Char('u')) ==> undo_post(
                *old(self),
                *final(self),
                eff,
            ),
            (old(self).prev_keys is Empty && ctrl && code == Key::Char('r')) ==> redo_post(
                *old(self),
                *final(self),
                eff,
            ),
            (old(self).prev_keys is Empty && code == Key::Char('P')) ==> paste_post(
                *old(self),
                *final(self),
                eff,
                false,
            ),
            (old(self).prev_keys is Empty && code == Key::Char('p')) ==> paste_post(
                *old(self),
                *final(self),
                eff,
                true,
            ),
            (old(self).prev_keys is G && code == Key::Char('c')) ==> toggle_comment_line_post(
                *old(self),
                *final(self),
                eff,
            ),
            (old(self).prev_keys is Empty && !ctrl && code == Key::Char('s'))
                ==> substitute_post(*old(self), *final(self), eff),
            (old(self).prev_keys is Empty && code == Key::Char('o')) ==> open_line_post(
                *old(self),
                *final(self),
                eff,
                true,
            ),
            (old(self).prev_keys is Empty && code == Key::Char('O')) ==> open_line_post(
                *old(self),
                *final(self),
                eff,
                false,
            ),
            (old(self).prev_keys is Y && code == Key::Char('y')) ==> yank_line_post(
                *old(self),
                *final(self),
                eff,
            ),
    {
        let no = Effects { save: false, clip_write: false };
        let save_only = Effects { save: true, clip_write: false };
        proof {
            assert(self.file_data.len() as int == self.file_data@.len());
        }
        if matches!(self.prev_keys, Pending::R) {
            let mut eff = no;
            if self.cursor_x < self.file_data[self.cursor_y].len() {
                match code {
                    Key::Char(c) => {
                        let snap = crate::history::clone_lines(&self.file_data);
                        self.history.create_snapshot(&snap, self.pos);
                        remove_row_char(&mut self.file_data, self.cursor_y, self.cursor_x);
                        proof {
                            assert(buf_view(self.file_data@)[self.cursor_y as int]
                                == self.file_data@[self.cursor_y as int]@);
                        }
                        insert_row_char(&mut self.file_data, self.cursor_y, self.cursor_x, c);
                        log_command(code, ctrl, &mut self.last_command, self.recording);
                        eff = save_only;
                    },
                    _ => {},
                }
            }
            self.prev_keys = Pending::Empty;
            return eff;
        }
        // A key that does not continue the pending multi-key command
        // aborts the prefix and is not otherwise interpreted.
        let continues = match self.prev_keys {
            Pending::Empty => true,
            Pending::R => true,
            Pending::G => code == Key::Char('g') || code == Key::Char('c'),
            Pending::C => code == Key::Char('i') || code == Key::Char('c'),
            Pending::D => code == Key::Char('i') || code == Key::Char('d'),
            Pending::Y => code == Key::Char('i') || code == Key::Char('y'),
            Pending::Ci => code == Key::Char('w'),
            Pending::Di => code == Key::Char('w'),
            Pending::Yi => code == Key::Char('w'),
        };
        if !continues {
            self.prev_keys = Pending::Empty;
            return no;
        }
        if code == Key::Char('q') {
            if !self.macro_recording {
                self.macro_command = Vec::new();
            }
            self.macro_recording = !self.macro_recording;
            return no;
        }
        if code == Key::Char('u') {
            let cur = crate::history::clone_lines(&self.file_data);
            match self.history.undo(&cur, (self.cursor_x, self.cursor_y)) {
                Some(entry) => {
                    let (buf, p) = entry;
                    self.file_data = buf;
                    self.cursor_x = p.0;
                    self.cursor_y = p.1;
                },
                None => {},
            }
            if self.file_data.len() == 0 {
                self.file_data.push(Vec::new());
            }
            proof {
                assert(buf_view(self.file_data@).len() == self.file_data@.len());
            }
            let flen = self.file_data.len();
            self.cursor_y = crate::motion::reset_cursor_end_file(flen, self.cursor_y);
            proof {
                assert(buf_view(self.file_data@)[self.cursor_y as int]
                    == self.file_data@[self.cursor_y as int]@);
            }
            self.cursor_x = crate::motion::reset_cursor_end(
                &self.file_data,
                self.cursor_x,
                self.cursor_y,
            );
            proof {
                let pre2 = *old(self);
                let b2 = buf_view(pre2.file_data@);
                let cur2 = (b2, (pre2.cursor_x as int, pre2.cursor_y as int));
                let st = crate::history::undo_step(
                    pre2.history.undo_view(),
                    pre2.history.redo_view(),
                    cur2,
                );
                assert(self.history.undo_view() == st.0);
                assert(self.history.redo_view() == st.1);
                let rb = if st.2.0.len() == 0 {
                    seq![Seq::<char>::empty()]
                } else {
                    st.2.0
                };
                assert(buf_view(self.file_data@) == rb);
                assert(self.cursor_y as int == (if st.2.1.1 >= rb.len() {
                    rb.len() - 1
                } else {
                    st.2.1.1
                }));
                assert(self.cursor_x as int == clamp_col(
                    rb[self.cursor_y as int],
                    st.2.1.0,
                ));
            }
            return save_only;
        }
        if code == Key::Char('r') && ctrl {
            let cur = crate::history::clone_lines(&self.file_data);
            match self.history.redo(&cur, (self.cursor_x, self.cursor_y)) {
                Some(entry) => {
                    let (buf, p) = entry;
                    self.file_data = buf;
                    self.cursor_x = p.0;
                    self.cursor_y = p.1;
                },
                None => {},
            }
            if self.file_data.len() == 0 {
                self.file_data.push(Vec::new());
            }
            proof {
                assert(buf_view(self.file_data@).len() == self.file_data@.len());
            }
            let flen = self.file_data.len();
            self.cursor_y = crate::motion::reset_cursor_end_file(flen, self.cursor_y);
            proof {
                assert(buf_view(self.file_data@)[self.cursor_y as int]
                    == self.file_data@[self.cursor_y as int]@);
            }
            self.cursor_x = crate::motion::reset_cursor_end(
                &self.file_data,
                self.cursor_x,
                self.cursor_y,
            );
            proof {
                let pre2 = *old(self);
                let b2 = buf_view(pre2.file_data@);
                let cur2 = (b2, (pre2.cursor_x as int, pre2.cursor_y as int));
                let st = crate::history::redo_step(
                    pre2.history.undo_view(),
                    pre2.history.redo_view(),
                    cur2,
                );
                assert(self.history.undo_view() == st.0);
                assert(self.history.redo_view() == st.1);
                let rb = if st.2.0.len() == 0 {
                    seq![Seq::<char>::empty()]
                } else {
                    st.2.0
                };
                assert(buf_view(self.file_data@) == rb);
                assert(self.cursor_y as int == (if st.2.1.1 >= rb.len() {
                    rb.len() - 1
                } else {
                    st.2.1.1
                }));
                assert(self.cursor_x as int == clamp_col(
                    rb[self.cursor_y as int],
                    st.2.1.0,
                ));
            }
            return save_only;
        }
        if matches!(self.prev_keys, Pending::Y) && code == Key::Char('i') {
            self.prev_keys = Pending::Yi;
            return no;
        }
        if matches!(self.prev_keys, Pending::Yi) && code == Key::Char('w') {
            self.cursor_x = crate::motion::reset_cursor_end(
                &self.file_data,
                self.cursor_x,
                self.cursor_y,
            );
            let mut eff = no;
            if self.file_data[self.cursor_y].len() > 0 {
                match crate::motion::get_in_word(&self.file_data[self.cursor_y], self.cursor_x) {
                    Some(be) => {
                        let new_end = crate::motion::prevent_cursor_end(
                            &self.file_data,
                            be.1,
                            self.cursor_y,
                        );
                        let r = crate::edit::copy_in_visual(
                            &self.file_data,
                            be.0,
                            self.cursor_y,
                            new_end,
                            self.cursor_y,
                            false,
                        );
                        self.clipboard = r.0;
                        self.cursor_x = r.1;
                        self.cursor_y = r.2;
                        eff = Effects { save: false, clip_write: true };
                    },
                    None => {},
                }
            }
            self.prev_keys = Pending::Empty;
            return eff;
        }
        if matches!(self.prev_keys, Pending::C) && code == Key::Char('i') {
            log_command(code, ctrl, &mut self.last_command, self.recording);
            self.prev_keys = Pending::Ci;
            return no;
        }
        if matches!(self.prev_keys, Pending::Ci) && code == Key::Char('w') {
            log_command(code, ctrl, &mut self.last_command, self.recording);
            let snap = crate::history::clone_lines(&self.file_data);
            self.history.create_snapshot(&snap, self.pos);
            self.cursor_x = crate::motion::reset_cursor_end(
                &self.file_data,
                self.cursor_x,
                self.cursor_y,
            );
            if self.file_data[self.cursor_y].len() > 0 {
                match crate::motion::get_in_word(&self.file_data[self.cursor_y], self.cursor_x) {
                    Some(be) => {
                        let new_end = crate::motion::prevent_cursor_end(
                            &self.file_data,
                            be.1,
                            self.cursor_y,
                        );
                        let r = crate::edit::delete_in_visual(
                            &mut self.file_data,
                            be.0,
                            self.cursor_y,
                            new_end,
                            self.cursor_y,
                            false,
                        );
                        self.cursor_x = r.0;
                        self.cursor_y = r.1;
                    },
                    None => {},
                }
            }
            self.mode = Mode::Insert;
            self.prev_keys = Pending::Empty;
            return no;
        }
        if matches!(self.prev_keys, Pending::D) && code == Key::Char('i') {
            log_command(code, ctrl, &mut self.last_command, self.recording);
            self.prev_keys = Pending::Di;
            return no;
        }
        if matches!(self.prev_keys, Pending::Di) && code == Key::Char('w') {
            log_command(code, ctrl, &mut self.last_command, self.recording);
            let snap = crate::history::clone_lines(&self.file_data);
            self.history.create_snapshot(&snap, self.pos);
            self.cursor_x = crate::motion::reset_cursor_end(
                &self.file_data,
                self.cursor_x,
                self.cursor_y,
            );
            let mut eff = save_only;
            if self.file_data[self.cursor_y].len() > 0 {
                match crate::motion::get_in_word(&self.file_data[self.cursor_y], self.cursor_x) {
                    Some(be) => {
                        let new_end = crate::motion::prevent_cursor_end(
                            &self.file_data,
                            be.1,
                            self.cursor_y,
                        );
                        let r = crate::edit::copy_in_visual(
                            &self.file_data,
                            be.0,
                            self.cursor_y,
                            new_end,
                            self.cursor_y,
                            false,
                        );
                        self.clipboard = r.0;
                        eff = Effects { save: true, clip_write: true };
                        let r2 = crate::edit::delete_in_visual(
                            &mut self.file_data,
                            be.0,
                            self.cursor_y,
                            new_end,
                            self.cursor_y,
                            false,
                        );
                        self.cursor_x = r2.0;
                        self.cursor_y = r2.1;
                    },
                    None => {},
                }
            }
            self.prev_keys = Pending::Empty;
            return eff;
        }
        if code == Key::Char('{') {
            self.cursor_y = crate::motion::get_prev_empty_line(&self.file_data, self.cursor_y);
            return no;
        }
        if code == Key::Char('}') {
            self.cursor_y = crate::motion::get_next_empty_line(&self.file_data, self.cursor_y);
            return no;
        }
        if code == Key::Char('h') {
            self.cursor_x = crate::motion::reset_cursor_end(
                &self.file_data,
                self.cursor_x,
                self.cursor_y,
            );
            self.cursor_x = crate::motion::left(self.cursor_x);
            return no;
        }
        if code == Key::Char('l') {
            self.cursor_x = crate::motion::right(&self.file_data, self.cursor_x, self.cursor_y);
            return no;
        }
        if code == Key::Char('j') {
            self.cursor_y = crate::motion::down(&self.file_data, self.cursor_y);
            return no;
        }
        if code == Key::Char('k') {
            self.cursor_y = crate::motion::up(self.cursor_y);
            return no;
        }
        if code == Key::Char('s') && ctrl {
            let snap = crate::history::clone_lines(&self.file_data);
            self.history.create_snapshot(&snap, self.pos);
            return save_only;
        }
        if code == Key::Char('$') {
            self.cursor_x = crate::motion::set_cursor_end(&self.file_data, self.cursor_y);
            self.cursor_x = crate::motion::left(self.cursor_x);
            return no;
        }
        if code == Key::Char('^') {
            self.cursor_x = crate::text::count_leading_spaces(&self.file_data[self.cursor_y]);
            return no;
        }
        if code == Key::Char('0') {
            self.cursor_x = 0;
            return no;
        }
        if code == Key::Char('b') {
            self.cursor_x = crate::motion::reset_cursor_end(
                &self.file_data,
                self.cursor_x,
                self.cursor_y,
            );
            self.cursor_x = crate::motion::get_index_prev_word(
                &self.file_data,
                self.cursor_x,
                self.cursor_y,
            );
            return no;
        }
        if code == Key::Char('w') {
            self.cursor_x = crate::motion::reset_cursor_end(
                &self.file_data,
                self.cursor_x,
                self.cursor_y,
            );
            self.cursor_x = crate::motion::get_index_next_word(
                &self.file_data,
                self.cursor_x,
                self.cursor_y,
            );
            return no;
        }
        if code == Key::Char('a') {
            self.last_command = Vec::new();
            log_command(code, ctrl, &mut self.last_command, self.recording);
            let snap = crate::history::clone_lines(&self.file_data);
            self.history.create_snapshot(&snap, self.pos);
            self.cursor_x = crate::motion::reset_cursor_end(
                &self.file_data,
                self.cursor_x,
                self.cursor_y,
            );
            self.cursor_x = crate::motion::right_insert(
                &self.file_data,
                self.cursor_x,
                self.cursor_y,
            );
            self.mode = Mode::Insert;
            return no;
        }
        if code == Key::Char('A') {
            self.last_command = Vec::new();
            log_command(code, ctrl, &mut self.last_command, self.recording);
            let snap = crate::history::clone_lines(&self.file_data);
            self.history.create_snapshot(&snap, self.pos);
            self.cursor_x = crate::motion::set_cursor_end(&self.file_data, self.cursor_y);
            self.mode = Mode::Insert;
            return no;
        }
        if code == Key::Char('i') {
            self.last_command = Vec::new();
            log_command(code, ctrl, &mut self.last_command, self.recording);
            let snap = crate::history::clone_lines(&self.file_data);
            self.history.create_snapshot(&snap, self.pos);
            self.cursor_x = crate::motion::reset_cursor_end(
                &self.file_data,
                self.cursor_x,
                self.cursor_y,
            );
            self.mode = Mode::Insert;
            return no;
        }
        if code == Key::Char('I') {
            self.last_command = Vec::new();
            log_command(code, ctrl, &mut self.last_command, self.recording);
            let snap = crate::history::clone_lines(&self.file_data);
            self.history.create_snapshot(&snap, self.pos);
            self.cursor_x = crate::text::count_leading_spaces(&self.file_data[self.cursor_y]);
            self.mode = Mode::Insert;
            return no;
        }
        if code == Key::Char('>') {
            self.last_command = Vec::new();
            log_command(code, ctrl, &mut self.last_command, self.recording);
            let snap = crate::history::clone_lines(&self.file_data);
            self.history.create_snapshot(&snap, self.pos);
            proof {
                assert(buf_view(self.file_data@)[self.cursor_y as int]
                    == self.file_data@[self.cursor_y as int]@);
            }
            let line = crate::history::clone_line(&self.file_data[self.cursor_y]);
            let newrow = crate::text::increase_indent(line);
            set_row(&mut self.file_data, self.cursor_y, newrow);
            proof {
                assert(buf_view(self.file_data@)[self.cursor_y as int]
                    == self.file_data@[self.cursor_y as int]@);
            }
            self.cursor_x = crate::text::count_leading_spaces(&self.file_data[self.cursor_y]);
            self.cursor_x = crate::motion::reset_cursor_end(
                &self.file_data,
                self.cursor_x,
                self.cursor_y,
            );
            return save_only;
        }
        if code == Key::Char('<') {
            self.last_command = Vec::new();
            log_command(code, ctrl, &mut self.last_command, self.recording);
            let snap = crate::history::clone_lines(&self.file_data);
            self.history.create_snapshot(&snap, self.pos);
            proof {
                assert(buf_view(self.file_data@)[self.cursor_y as int]
                    == self.file_data@[self.cursor_y as int]@);
            }
            let line = crate::history::clone_line(&self.file_data[self.cursor_y]);
            let newrow = crate::text::reduce_indent(line);
            set_row(&mut self.file_data, self.cursor_y, newrow);
            proof {
                assert(buf_view(self.file_data@)[self.cursor_y as int]
                    == self.file_data@[self.cursor_y as int]@);
            }
            self.cursor_x = crate::text::count_leading_spaces(&self.file_data[self.cursor_y]);
            self.cursor_x = crate::motion::reset_cursor_end(
                &self.file_data,
                self.cursor_x,
                self.cursor_y,
            );
            return save_only;
        }
        if code == Key::Char('o') {
            self.last_command = Vec::new();
            log_command(code, ctrl, &mut self.last_command, self.recording);
            let snap = crate::history::clone_lines(&self.file_data);
            self.history.create_snapshot(&snap, self.pos);
            let sp = indent_for_open(&self.file_data, self.cursor_y);
            let ghost spv = sp@;
            let ghost b0 = buf_view(self.file_data@);
            let ind2 = sp.len();
            self.file_data.insert(self.cursor_y + 1, sp);
            proof {
                assert(buf_view(self.file_data@) =~= b0.insert(self.cursor_y + 1, spv));
                assert(buf_view(self.file_data@)[self.cursor_y + 1]
                    == self.file_data@[self.cursor_y + 1]@);
            }
            self.cursor_x = ind2;
            self.cursor_y = crate::motion::down(&self.file_data, self.cursor_y);
            self.mode = Mode::Insert;
            return no;
        }
        if code == Key::Char('O') {
            self.last_command = Vec::new();
            log_command(code, ctrl, &mut self.last_command, self.recording);
            let snap = crate::history::clone_lines(&self.file_data);
            self.history.create_snapshot(&snap, self.pos);
            let sp = indent_for_open(&self.file_data, self.cursor_y);
            let ghost spv = sp@;
            let ghost b0 = buf_view(self.file_data@);
            let ind2 = sp.len();
            self.cursor_x = ind2;
            self.file_data.insert(self.cursor_y, sp);
            proof {
                assert(buf_view(self.file_data@) =~= b0.insert(self.cursor_y as int, spv));
                assert(buf_view(self.file_data@)[self.cursor_y as int]
                    == self.file_data@[self.cursor_y as int]@);
            }
            self.mode = Mode::Insert;
            return no;
        }
        self.dispatch_normal_rest(code, ctrl, term_height)
    }

    /// The remaining normal-mode commands: visual-mode entry, pasting,
    /// character deletion, scrolling, comment toggling, line copy and
    /// delete, pending prefixes, and search.
    #[verifier::rlimit(100)]
    fn dispatch_normal_rest(&mut self, code: Key, ctrl: bool, term_height: usize) -> (eff: Effects)
        requires
            old(self).wf(),
            old(self).mode is Normal,
            old(self).pos == (old(self).cursor_x, old(self).cursor_y),
        ensures
            final(self).file_data@.len() >= 1,
            final(self).file_name@ == old(self).file_name@,
            (final(self).mode is VisualChar || final(self).mode is VisualLine) ==> visual_ok(
                *final(self),
            ),
            code == Key::Esc ==> (final(self).prev_keys is Empty && final(self).mode is Normal
                && buf_view(final(self).file_data@) == buf_view(old(self).file_data@)),
            (old(self).prev_keys is Empty && !ctrl && code == Key::Char('x'))
                ==> delete_char_post(*old(self), *final(self), eff),
            (old(self).prev_keys is D && !ctrl && code == Key::Char('d')) ==> delete_line_post(
                *old(self),
                *final(self),
                eff,
            ),
            (old(self).prev_keys is Empty && code == Key::Char('P')) ==> paste_post(
                *old(self),
                *final(self),
                eff,
                false,
            ),
            (old(self).prev_keys is Empty && code == Key::Char('p')) ==> paste_post(
                *old(self),
                *final(self),
                eff,
                true,
            ),
            (old(self).prev_keys is G && code == Key::Char('c')) ==> toggle_comment_line_post(
                *old(self),
                *final(self),
                eff,
            ),
            (old(self).prev_keys is Empty && !ctrl && code == Key::Char('s'))
                ==> substitute_post(*old(self), *final(self), eff),
            (old(self).prev_keys is Y && code == Key::Char('y')) ==> yank_line_post(
                *old(self),
                *final(self),
                eff,
            ),
    {
        let no = Effects { save: false, clip_write: false };
        let save_only = Effects { save: true, clip_write: false };
        proof {
            assert(self.file_data.len() as int == self.file_data@.len());
        }
        if code == Key::Char('v') {
            self.last_command = Vec::new();
            log_command(code, ctrl, &mut self.last_command, self.recording);
            self.mode = Mode::VisualChar;
            self.visual_x = self.cursor_x;
            self.visual_y = self.cursor_y;
            return no;
        }
        if code == Key::Char('V') {
            self.last_command = Vec::new();
            log_command(code, ctrl, &mut self.last_command, self.recording);
            self.mode = Mode::VisualLine;
            self.visual_x = self.cursor_x;
            self.visual_y = self.cursor_y;
            return no;
        }
        if matches!(self.prev_keys, Pending::G) && code == Key::Char('g') {
            log_command(code, ctrl, &mut self.last_command, self.recording);
            self.cursor_y = 0;
            self.prev_keys = Pending::Empty;
            return no;
        }
        if code == Key::Char('P') {
            self.last_command = Vec::new();
            log_command(code, ctrl, &mut self.last_command, self.recording);
            let snap = crate::history::clone_lines(&self.file_data);
            self.history.create_snapshot(&snap, self.pos);
            let clip = crate::history::clone_line(&self.clipboard);
            let ghost bpre = buf_view(self.file_data@);
            let ghost cx0 = self.cursor_x as int;
            let ghost cy0 = self.cursor_y as int;
            crate::edit::paste_before(&mut self.file_data, self.cursor_x, self.cursor_y, &clip);
            proof {
                crate::edit::lemma_split_nl_len(clip@.skip(1));
                crate::edit::lemma_split_nl_len(clip@);
                assert(buf_view(self.file_data@) == crate::edit::paste_spec(
                    bpre,
                    cx0,
                    cy0,
                    clip@,
                    false,
                ));
                assert(buf_view(self.file_data@).len() >= 1);
                assert(self.file_data@.len() == buf_view(self.file_data@).len());
            }
            let flen = self.file_data.len();
            self.cursor_y = crate::motion::reset_cursor_end_file(flen, self.cursor_y);
            proof {
                assert(buf_view(self.file_data@)[self.cursor_y as int]
                    == self.file_data@[self.cursor_y as int]@);
            }
            self.cursor_x = crate::motion::reset_cursor_end(
                &self.file_data,
                self.cursor_x,
                self.cursor_y,
            );
            return save_only;
        }
        if code == Key::Char('p') {
            self.last_command = Vec::new();
            log_command(code, ctrl, &mut self.last_command, self.recording);
            let snap = crate::history::clone_lines(&self.file_data);
            self.history.create_snapshot(&snap, self.pos);
            self.cursor_x = crate::motion::prevent_cursor_end(
                &self.file_data,
                self.cursor_x,
                self.cursor_y,
            );
            let clip = crate::history::clone_line(&self.clipboard);
            let ghost bpre = buf_view(self.file_data@);
            let ghost cx0 = self.cursor_x as int;
            let ghost cy0 = self.cursor_y as int;
            crate::edit::paste_after(&mut self.file_data, self.cursor_x, self.cursor_y, &clip);
            proof {
                crate::edit::lemma_split_nl_len(clip@.skip(1));
                crate::edit::lemma_split_nl_len(clip@);
                assert(buf_view(self.file_data@) == crate::edit::paste_spec(
                    bpre,
                    cx0,
                    cy0,
                    clip@,
                    true,
                ));
                assert(buf_view(self.file_data@).len() >= 1);
                assert(self.file_data@.len() == buf_view(self.file_data@).len());
            }
            let flen = self.file_data.len();
            self.cursor_y = crate::motion::reset_cursor_end_file(flen, self.cursor_y);
            proof {
                assert(buf_view(self.file_data@)[self.cursor_y as int]
                    == self.file_data@[self.cursor_y as int]@);
            }
            self.cursor_x = crate::motion::reset_cursor_end(
                &self.file_data,
                self.cursor_x,
                self.cursor_y,
            );
            return save_only;
        }
        if code == Key::Char('s') {
            self.last_command = Vec::new();
            log_command(code, ctrl, &mut self.last_command, self.recording);
            let snap = crate::history::clone_lines(&self.file_data);
            self.history.create_snapshot(&snap, self.pos);
            if self.cursor_x < self.file_data[self.cursor_y].len() {
                remove_row_char(&mut self.file_data, self.cursor_y, self.cursor_x);
            }
            self.mode = Mode::Insert;
            return no;
        }
        if code == Key::Char('x') {
            self.last_command = Vec::new();
            log_command(code, ctrl, &mut self.last_command, self.recording);
            self.cursor_x = crate::motion::reset_cursor_end(
                &self.file_data,
                self.cursor_x,
                self.cursor_y,
            );
            let mut eff = no;
            if self.cursor_x < self.file_data[self.cursor_y].len() {
                let snap = crate::history::clone_lines(&self.file_data);
                self.history.create_snapshot(&snap, self.pos);
                let mut one: Vec<char> = Vec::new();
                one.push(self.file_data[self.cursor_y][self.cursor_x]);
                self.clipboard = one;
                remove_row_char(&mut self.file_data, self.cursor_y, self.cursor_x);
                eff = Effects { save: true, clip_write: true };
            }
            self.cursor_x = crate::motion::reset_cursor_end(
                &self.file_data,
                self.cursor_x,
                self.cursor_y,
            );
            return eff;
        }
        if code == Key::Char('d') && ctrl {
            self.cursor_y = half_page_down(&self.file_data, self.cursor_y, term_height);
            return no;
        }
        if code == Key::Char('u') && ctrl {
            self.cursor_y = half_page_up(self.cursor_y, term_height);
            return no;
        }
        if matches!(self.prev_keys, Pending::G) && code == Key::Char('c') {
            log_command(code, ctrl, &mut self.last_command, self.recording);
            let snap = crate::history::clone_lines(&self.file_data);
            self.history.create_snapshot(&snap, self.pos);
            let token = comment_token(&self.file_name);
            proof {
                assert(buf_view(self.file_data@)[self.cursor_y as int]
                    == self.file_data@[self.cursor_y as int]@);
            }
            let line = crate::history::clone_line(&self.file_data[self.cursor_y]);
            let newrow = crate::text::toggle_comment(line, &token);
            set_row(&mut self.file_data, self.cursor_y, newrow);
            proof {
                assert(buf_view(self.file_data@)[self.cursor_y as int]
                    == self.file_data@[self.cursor_y as int]@);
            }
            self.cursor_x = crate::text::count_leading_spaces(&self.file_data[self.cursor_y]);
            self.cursor_x = crate::motion::reset_cursor_end(
                &self.file_data,
                self.cursor_x,
                self.cursor_y,
            );
            self.prev_keys = Pending::Empty;
            return save_only;
        }
        if matches!(self.prev_keys, Pending::C) && code == Key::Char('c') {
            log_command(code, ctrl, &mut self.last_command, self.recording);
            let snap = crate::history::clone_lines(&self.file_data);
            self.history.create_snapshot(&snap, self.pos);
            let r = crate::edit::copy_in_visual(
                &self.file_data,
                self.cursor_x,
                self.cursor_y,
                self.cursor_x,
                self.cursor_y,
                true,
            );
            self.clipboard = r.0;
            crate::edit::delete_in_visual_and_insert(
                &mut self.file_data,
                self.cursor_y,
                self.cursor_y,
            );
            self.cursor_x = 0;
            let flen = self.file_data.len();
            self.cursor_y = crate::motion::reset_cursor_end_file(flen, self.cursor_y);
            self.mode = Mode::Insert;
            self.prev_keys = Pending::Empty;
            return Effects { save: false, clip_write: true };
        }
        if matches!(self.prev_keys, Pending::Y) && code == Key::Char('y') {
            let r = crate::edit::copy_in_visual(
                &self.file_data,
                self.cursor_x,
                self.cursor_y,
                self.cursor_x,
                self.cursor_y,
                true,
            );
            self.clipboard = r.0;
            self.prev_keys = Pending::Empty;
            return Effects { save: false, clip_write: true };
        }
        if matches!(self.prev_keys, Pending::D) && code == Key::Char('d') {
            log_command(code, ctrl, &mut self.last_command, self.recording);
            let snap = crate::history::clone_lines(&self.file_data);
            self.history.create_snapshot(&snap, self.pos);
            let r = crate::edit::copy_in_visual(
                &self.file_data,
                self.cursor_x,
                self.cursor_y,
                self.cursor_x,
                self.cursor_y,
                true,
            );
            self.clipboard = r.0;
            let _ = crate::edit::delete_in_visual(
                &mut self.file_data,
                self.cursor_x,
                self.cursor_y,
                self.cursor_x,
                self.cursor_y,
                true,
            );
            let flen = self.file_data.len();
            self.cursor_y = crate::motion::reset_cursor_end_file(flen, self.cursor_y);
            self.cursor_x = crate::motion::reset_cursor_end(
                &self.file_data,
                self.cursor_x,
                self.cursor_y,
            );
            self.prev_keys = Pending::Empty;
            return Effects { save: true, clip_write: true };
        }
        if matches!(self.prev_keys, Pending::Empty) && code == Key::Char('g') {
            self.last_command = Vec::new();
            log_command(code, ctrl, &mut self.last_command, self.recording);
            self.prev_keys = Pending::G;
            return no;
        }
        if matches!(self.prev_keys, Pending::Empty) && code == Key::Char('r') {
            self.last_command = Vec::new();
            log_command(code, ctrl, &mut self.last_command, self.recording);
            self.prev_keys = Pending::R;
            return no;
        }
        if matches!(self.prev_keys, Pending::Empty) && code == Key::Char('c') {
            self.last_command = Vec::new();
            log_command(code, ctrl, &mut self.last_command, self.recording);
            self.prev_keys = Pending::C;
            return no;
        }
        if matches!(self.prev_keys, Pending::Empty) && code == Key::Char('d') {
            self.last_command = Vec::new();
            log_command(code, ctrl, &mut self.last_command, self.recording);
            self.prev_keys = Pending::D;
            return no;
        }
        if matches!(self.prev_keys, Pending::Empty) && code == Key::Char('y') {
            self.last_command = Vec::new();
            log_command(code, ctrl, &mut self.last_command, self.recording);
            self.prev_keys = Pending::Y;
            return no;
        }
        if code == Key::Char('G') {
            self.cursor_y = self.file_data.len() - 1;
            return no;
        }
        if code == Key::Char('/') {
            self.mode = Mode::Search;
            self.search_string = Vec::new();
            self.searching = true;
            return no;
        }
        if code == Key::Char('N') {
            self.cursor_x = crate::motion::reset_cursor_end(
                &self.file_data,
                self.cursor_x,
                self.cursor_y,
            );
            match crate::search::get_prev_occurrence(
                &self.file_data,
                self.cursor_x,
                self.cursor_y,
                &self.search_string,
            ) {
                Some(p) => {
                    self.cursor_x = p.0;
                    self.cursor_y = p.1;
                },
                None => {},
            }
            self.searching = true;
            return no;
        }
        if code == Key::Char('n') {
            self.cursor_x = crate::motion::reset_cursor_end(
                &self.file_data,
                self.cursor_x,
                self.cursor_y,
            );
            let rl = self.file_data[self.cursor_y].len();
            proof {
                assert(self.cursor_x == 0 || self.cursor_x < rl);
            }
            match crate::search::find_next_occurrence(
                &self.file_data,
                self.cursor_x + 1,
                self.cursor_y,
                &self.search_string,
            ) {
                Some(p) => {
                    self.cursor_x = p.0;
                    self.cursor_y = p.1;
                },
                None => {},
            }
            self.searching = true;
            return no;
        }
        if code == Key::Esc {
            self.prev_keys = Pending::Empty;
            return no;
        }
        // A key that continues no multi-key command aborts the pending
        // prefix without being interpreted itself.
        self.prev_keys = Pending::Empty;
        no
    }
}


impl Session {
    /// Handles one key in character-wise visual mode: motions move the
    /// selection end; yank, change, delete and comment toggling act on
    /// the normalized selection and leave visual mode.
    #[verifier::rlimit(100)]
    fn dispatch_visual_char(&mut self, code: Key, ctrl: bool, term_height: usize) -> (eff: Effects)
        requires
            old(self).wf(),
            old(self).mode is VisualChar,
        ensures
            final(self).file_data@.len() >= 1,
            final(self).file_name@ == old(self).file_name@,
            (final(self).mode is VisualChar || final(self).mode is VisualLine) ==> visual_ok(
                *final(self),
            ),
            (old(self).prev_keys is Empty && !ctrl && code == Key::Char('y'))
                ==> visual_yank_post(*old(self), *final(self), eff, false),
            (old(self).prev_keys is Empty && !ctrl && code == Key::Char('d'))
                ==> visual_delete_post(*old(self), *final(self), eff, false),
            (old(self).prev_keys is G && code == Key::Char('c'))
                ==> visual_toggle_comments_post(*old(self), *final(self), eff),
    {
        let no = Effects { save: false, clip_write: false };
        let mut eff = no;
        proof {
            assert(self.file_data.len() as int == self.file_data@.len());
        }
        if matches!(self.prev_keys, Pending::G) && !(code == Key::Char('g') || code == Key::Char(
            'c',
        )) {
            // An unmatched continuation aborts the pending prefix.
            self.prev_keys = Pending::Empty;
            log_command(code, ctrl, &mut self.last_command, self.recording);
            return no;
        }
        if code == Key::Esc {
            self.mode = Mode::Normal;
        } else if code == Key::Char('$') {
            self.cursor_x = crate::motion::set_cursor_end(&self.file_data, self.cursor_y);
            self.cursor_x = crate::motion::left(self.cursor_x);
        } else if code == Key::Char('^') {
            self.cursor_x = crate::text::count_leading_spaces(&self.file_data[self.cursor_y]);
        } else if code == Key::Char('0') {
            self.cursor_x = 0;
        } else if code == Key::Char('*') {
            self.mode = Mode::Normal;
            self.searching = true;
            let (nx, nvx) = crate::motion::normalize(self.cursor_x, self.visual_x);
            self.cursor_x = nx;
            self.visual_x = nvx;
            let row = &self.file_data[self.cursor_y];
            let lo = if nx < row.len() {
                nx
            } else {
                row.len()
            };
            let hi = if nvx < row.len() {
                nvx + 1
            } else {
                row.len()
            };
            let mut ss: Vec<char> = Vec::new();
            crate::text::push_range(&mut ss, row, lo, hi);
            self.search_string = ss;
        } else if code == Key::Char('{') {
            self.cursor_y = crate::motion::get_prev_empty_line(&self.file_data, self.cursor_y);
        } else if code == Key::Char('}') {
            self.cursor_y = crate::motion::get_next_empty_line(&self.file_data, self.cursor_y);
        } else if code == Key::Char('h') {
            self.cursor_x = crate::motion::left(self.cursor_x);
        } else if code == Key::Char('l') {
            self.cursor_x = crate::motion::right(&self.file_data, self.cursor_x, self.cursor_y);
        } else if code == Key::Char('j') {
            self.cursor_y = crate::motion::down(&self.file_data, self.cursor_y);
        } else if code == Key::Char('k') {
            self.cursor_y = crate::motion::up(self.cursor_y);
        } else if code == Key::Char('b') {
            self.cursor_x = crate::motion::reset_cursor_end(
                &self.file_data,
                self.cursor_x,
                self.cursor_y,
            );
            self.cursor_x = crate::motion::get_index_prev_word(
                &self.file_data,
                self.cursor_x,
                self.cursor_y,
            );
        } else if code == Key::Char('w') {
            self.cursor_x = crate::motion::reset_cursor_end(
                &self.file_data,
                self.cursor_x,
                self.cursor_y,
            );
            self.cursor_x = crate::motion::get_index_next_word(
                &self.file_data,
                self.cursor_x,
                self.cursor_y,
            );
        } else if matches!(self.prev_keys, Pending::G) && code == Key::Char('g') {
            self.cursor_y = 0;
            self.prev_keys = Pending::Empty;
        } else if matches!(self.prev_keys, Pending::G) && code == Key::Char('c') {
            let snap = crate::history::clone_lines(&self.file_data);
            self.history.create_snapshot(&snap, self.pos);
            let token = comment_token(&self.file_name);
            crate::edit::toggle_comments_in_visual(
                &mut self.file_data,
                &token,
                self.cursor_y,
                self.visual_y,
            );
            self.cursor_y = crate::motion::get_cursor_after_visual(self.cursor_y, self.visual_y);
            proof {
                assert(buf_view(self.file_data@)[self.cursor_y as int]
                    == self.file_data@[self.cursor_y as int]@);
            }
            self.cursor_x = crate::motion::reset_cursor_end(
                &self.file_data,
                self.cursor_x,
                self.cursor_y,
            );
            self.prev_keys = Pending::Empty;
            self.mode = Mode::Normal;
            eff = Effects { save: true, clip_write: false };
        } else if matches!(self.prev_keys, Pending::Empty) && code == Key::Char('g') {
            self.prev_keys = Pending::G;
        } else if code == Key::Char('G') {
            self.cursor_y = self.file_data.len() - 1;
        } else if code == Key::Char('d') && ctrl {
            self.cursor_y = half_page_down(&self.file_data, self.cursor_y, term_height);
        } else if code == Key::Char('u') && ctrl {
            self.cursor_y = half_page_up(self.cursor_y, term_height);
        } else if code == Key::Char('y') {
            self.cursor_x = crate::motion::prevent_cursor_end(
                &self.file_data,
                self.cursor_x,
                self.cursor_y,
            );
            let snap = crate::history::clone_lines(&self.file_data);
            self.history.create_snapshot(&snap, self.pos);
            let r = crate::edit::copy_in_visual(
                &self.file_data,
                self.cursor_x,
                self.cursor_y,
                self.visual_x,
                self.visual_y,
                false,
            );
            self.clipboard = r.0;
            self.cursor_y = crate::motion::get_cursor_after_visual(self.cursor_y, self.visual_y);
            self.cursor_x = crate::motion::get_cursor_after_visual(self.cursor_x, self.visual_x);
            proof {
                assert(buf_view(self.file_data@)[self.cursor_y as int]
                    == self.file_data@[self.cursor_y as int]@);
            }
            self.cursor_x = crate::motion::reset_cursor_end(
                &self.file_data,
                self.cursor_x,
                self.cursor_y,
            );
            self.mode = Mode::Normal;
            eff = Effects { save: true, clip_write: true };
        } else if code == Key::Char('c') {
            self.cursor_x = crate::motion::prevent_cursor_end(
                &self.file_data,
                self.cursor_x,
                self.cursor_y,
            );
            let snap = crate::history::clone_lines(&self.file_data);
            self.history.create_snapshot(&snap, self.pos);
            let r = crate::edit::delete_in_visual(
                &mut self.file_data,
                self.cursor_x,
                self.cursor_y,
                self.visual_x,
                self.visual_y,
                false,
            );
            self.cursor_x = r.0;
            self.cursor_y = r.1;
            self.cursor_y = crate::motion::get_cursor_after_visual(self.cursor_y, self.visual_y);
            let flen = self.file_data.len();
            self.cursor_y = crate::motion::reset_cursor_end_file(flen, self.cursor_y);
            self.mode = Mode::Insert;
        } else if code == Key::Char('d') {
            self.cursor_x = crate::motion::prevent_cursor_end(
                &self.file_data,
                self.cursor_x,
                self.cursor_y,
            );
            let snap = crate::history::clone_lines(&self.file_data);
            self.history.create_snapshot(&snap, self.pos);
            let r = crate::edit::copy_in_visual(
                &self.file_data,
                self.cursor_x,
                self.cursor_y,
                self.visual_x,
                self.visual_y,
                false,
            );
            self.clipboard = r.0;
            let r2 = crate::edit::delete_in_visual(
                &mut self.file_data,
                self.cursor_x,
                self.cursor_y,
                self.visual_x,
                self.visual_y,
                false,
            );
            self.cursor_x = r2.0;
            self.cursor_y = r2.1;
            self.cursor_y = crate::motion::get_cursor_after_visual(self.cursor_y, self.visual_y);
            let flen = self.file_data.len();
            self.cursor_y = crate::motion::reset_cursor_end_file(flen, self.cursor_y);
            proof {
                assert(buf_view(self.file_data@)[self.cursor_y as int]
                    == self.file_data@[self.cursor_y as int]@);
            }
            self.cursor_x = crate::motion::reset_cursor_end(
                &self.file_data,
                self.cursor_x,
                self.cursor_y,
            );
            self.mode = Mode::Normal;
            eff = Effects { save: true, clip_write: true };
        } else if code == Key::Char('x') {
            let snap = crate::history::clone_lines(&self.file_data);
            self.history.create_snapshot(&snap, self.pos);
            let r = crate::edit::delete_in_visual(
                &mut self.file_data,
                self.cursor_x,
                self.cursor_y,
                self.visual_x,
                self.visual_y,
                false,
            );
            self.cursor_x = r.0;
            self.cursor_y = r.1;
            self.cursor_y = crate::motion::get_cursor_after_visual(self.cursor_y, self.visual_y);
            let flen = self.file_data.len();
            self.cursor_y = crate::motion::reset_cursor_end_file(flen, self.cursor_y);
            self.mode = Mode::Normal;
            eff = Effects { save: true, clip_write: false };
        }
        log_command(code, ctrl, &mut self.last_command, self.recording);
        eff
    }

    /// Handles one key in line-wise visual mode: row motions move the
    /// selection; indent, yank, change, delete and comment toggling act
    /// on whole rows of the selection and leave visual mode.
    #[verifier::rlimit(100)]
    fn dispatch_visual_line(&mut self, code: Key, ctrl: bool, term_height: usize) -> (eff: Effects)
        requires
            old(self).wf(),
            old(self).mode is VisualLine,
        ensures
            final(self).file_data@.len() >= 1,
            final(self).file_name@ == old(self).file_name@,
            (final(self).mode is VisualChar || final(self).mode is VisualLine) ==> visual_ok(
                *final(self),
            ),
            (old(self).prev_keys is Empty && !ctrl && code == Key::Char('y'))
                ==> visual_yank_post(*old(self), *final(self), eff, true),
            (old(self).prev_keys is Empty && !ctrl && code == Key::Char('d'))
                ==> visual_delete_post(*old(self), *final(self), eff, true),
            (old(self).prev_keys is G && code == Key::Char('c'))
                ==> visual_toggle_comments_post(*old(self), *final(self), eff),
    {
        let no = Effects { save: false, clip_write: false };
        let mut eff = no;
        proof {
            assert(self.file_data.len() as int == self.file_data@.len());
        }
        if matches!(self.prev_keys, Pending::G) && !(code == Key::Char('g') || code == Key::Char(
            'c',
        )) {
            // An unmatched continuation aborts the pending prefix.
            self.prev_keys = Pending::Empty;
            log_command(code, ctrl, &mut self.last_command, self.recording);
            return no;
        }
        if code == Key::Esc {
            self.mode = Mode::Normal;
        } else if code == Key::Char('{') {
            self.cursor_y = crate::motion::get_prev_empty_line(&self.file_data, self.cursor_y);
        } else if code == Key::Char('}') {
            self.cursor_y = crate::motion::get_next_empty_line(&self.file_data, self.cursor_y);
        } else if code == Key::Char('j') {
            self.cursor_y = crate::motion::down(&self.file_data, self.cursor_y);
        } else if code == Key::Char('k') {
            self.cursor_y = crate::motion::up(self.cursor_y);
        } else if matches!(self.prev_keys, Pending::G) && code == Key::Char('g') {
            self.cursor_y = 0;
            self.prev_keys = Pending::Empty;
        } else if matches!(self.prev_keys, Pending::G) && code == Key::Char('c') {
            let snap = crate::history::clone_lines(&self.file_data);
            self.history.create_snapshot(&snap, self.pos);
            let token = comment_token(&self.file_name);
            crate::edit::toggle_comments_in_visual(
                &mut self.file_data,
                &token,
                self.cursor_y,
                self.visual_y,
            );
            self.cursor_y = crate::motion::get_cursor_after_visual(self.cursor_y, self.visual_y);
            proof {
                assert(buf_view(self.file_data@)[self.cursor_y as int]
                    == self.file_data@[self.cursor_y as int]@);
            }
            self.cursor_x = crate::motion::reset_cursor_end(
                &self.file_data,
                self.cursor_x,
                self.cursor_y,
            );
            self.prev_keys = Pending::Empty;
            self.mode = Mode::Normal;
            eff = Effects { save: true, clip_write: false };
        } else if matches!(self.prev_keys, Pending::Empty) && code == Key::Char('g') {
            self.prev_keys = Pending::G;
        } else if code == Key::Char('G') {
            self.cursor_y = self.file_data.len() - 1;
        } else if code == Key::Char('d') && ctrl {
            self.cursor_y = half_page_down(&self.file_data, self.cursor_y, term_height);
        } else if code == Key::Char('u') && ctrl {
            self.cursor_y = half_page_up(self.cursor_y, term_height);
        } else if code == Key::Char('>') {
            let snap = crate::history::clone_lines(&self.file_data);
            self.history.create_snapshot(&snap, self.pos);
            crate::edit::increase_indent_visual(&mut self.file_data, self.cursor_y, self.visual_y);
            self.cursor_y = crate::motion::get_cursor_after_visual(self.cursor_y, self.visual_y);
            self.mode = Mode::Normal;
            eff = Effects { save: true, clip_write: false };
        } else if code == Key::Char('<') {
            let snap = crate::history::clone_lines(&self.file_data);
            self.history.create_snapshot(&snap, self.pos);
            crate::edit::reduce_indent_visual(&mut self.file_data, self.cursor_y, self.visual_y);
            self.cursor_y = crate::motion::get_cursor_after_visual(self.cursor_y, self.visual_y);
            self.mode = Mode::Normal;
            eff = Effects { save: true, clip_write: false };
        } else if code == Key::Char('y') {
            let snap = crate::history::clone_lines(&self.file_data);
            self.history.create_snapshot(&snap, self.pos);
            let r = crate::edit::copy_in_visual(
                &self.file_data,
                self.cursor_x,
                self.cursor_y,
                self.visual_x,
                self.visual_y,
                true,
            );
            self.clipboard = r.0;
            self.cursor_y = crate::motion::get_cursor_after_visual(self.cursor_y, self.visual_y);
            proof {
                assert(buf_view(self.file_data@)[self.cursor_y as int]
                    == self.file_data@[self.cursor_y as int]@);
            }
            self.cursor_x = crate::motion::reset_cursor_end(
                &self.file_data,
                self.cursor_x,
                self.cursor_y,
            );
            self.mode = Mode::Normal;
            eff = Effects { save: true, clip_write: true };
        } else if code == Key::Char('c') {
            let snap = crate::history::clone_lines(&self.file_data);
            self.history.create_snapshot(&snap, self.pos);
            crate::edit::delete_in_visual_and_insert(
                &mut self.file_data,
                self.cursor_y,
                self.visual_y,
            );
            self.cursor_y = crate::motion::get_cursor_after_visual(self.cursor_y, self.visual_y);
            let flen = self.file_data.len();
            self.cursor_y = crate::motion::reset_cursor_end_file(flen, self.cursor_y);
            self.mode = Mode::Insert;
        } else if code == Key::Char('d') {
            let snap = crate::history::clone_lines(&self.file_data);
            self.history.create_snapshot(&snap, self.pos);
            let r = crate::edit::copy_in_visual(
                &self.file_data,
                self.cursor_x,
                self.cursor_y,
                self.visual_x,
                self.visual_y,
                true,
            );
            self.clipboard = r.0;
            let r2 = crate::edit::delete_in_visual(
                &mut self.file_data,
                self.cursor_x,
                self.cursor_y,
                self.visual_x,
                self.visual_y,
                true,
            );
            self.cursor_x = r2.0;
            self.cursor_y = r2.1;
            self.cursor_y = crate::motion::get_cursor_after_visual(self.cursor_y, self.visual_y);
            let flen = self.file_data.len();
            self.cursor_y = crate::motion::reset_cursor_end_file(flen, self.cursor_y);
            proof {
                assert(buf_view(self.file_data@)[self.cursor_y as int]
                    == self.file_data@[self.cursor_y as int]@);
            }
            self.cursor_x = crate::motion::reset_cursor_end(
                &self.file_data,
                self.cursor_x,
                self.cursor_y,
            );
            self.mode = Mode::Normal;
            eff = Effects { save: true, clip_write: true };
        } else if code == Key::Char('x') {
            let snap = crate::history::clone_lines(&self.file_data);
            self.history.create_snapshot(&snap, self.pos);
            let r = crate::edit::delete_in_visual(
                &mut self.file_data,
                self.cursor_x,
                self.cursor_y,
                self.visual_x,
                self.visual_y,
                true,
            );
            self.cursor_x = r.0;
            self.cursor_y = r.1;
            self.cursor_y = crate::motion::get_cursor_after_visual(self.cursor_y, self.visual_y);
            let flen = self.file_data.len();
            self.cursor_y = crate::motion::reset_cursor_end_file(flen, self.cursor_y);
            self.mode = Mode::Normal;
            eff = Effects { save: true, clip_write: false };
        }
        log_command(code, ctrl, &mut self.last_command, self.recording);
        eff
    }
}

/// The indentation for a line opened below or above the cursor's line:
/// the line's own indentation, one unit deeper when it ends with an
/// opening parenthesis or brace.
fn indent_for_open(file_data: &Vec<Vec<char>>, cursor_y: usize) -> (r: Vec<char>)
    requires
        cursor_y < file_data@.len(),
    ensures
        ({
            let l = buf_view(file_data@)[cursor_y as int];
            let ind = crate::text::leading_ws(l);
            let deeper = l.len() > 0 && (l.last() == '(' || l.last() == '{');
            r@ == crate::edit::spaces(if deeper {
                ind + 4
            } else {
                ind
            })
        }),
{
    let row = &file_data[cursor_y];
    proof {
        crate::text::lemma_leading_ws_bounds(row@);
    }
    let ind = crate::text::count_leading_spaces(row);
    let mut sp = crate::edit::make_spaces(ind);
    let rl = row.len();
    if rl > 0 && (row[rl - 1] == '(' || row[rl - 1] == '{') {
        sp.push(' ');
        sp.push(' ');
        sp.push(' ');
        sp.push(' ');
        proof {
            assert(sp@ =~= crate::edit::spaces(ind + 4));
        }
    }
    sp
}

/// The file's comment token, `#` when the extension is unknown.
fn comment_token(file_name: &Vec<char>) -> (r: Vec<char>)
    ensures
        r@ == crate::render::resolved_token(file_name@),
{
    match crate::comment::get_comment_string(file_name) {
        Some(t) => t,
        None => {
            let mut v: Vec<char> = Vec::new();
            v.push('#');
            proof {
                assert(v@ =~= seq!['#']);
            }
            v
        },
    }
}

/// Scrolls half a terminal page of rows down, bounded by the last row.
fn half_page_down(file_data: &Vec<Vec<char>>, cursor_y: usize, term_height: usize) -> (r: usize)
    requires
        file_data@.len() >= 1,
        cursor_y < file_data@.len(),
    ensures
        r < file_data@.len(),
{
    let steps = term_height / 2 + term_height % 2;
    let mut y = cursor_y;
    let mut j: usize = 0;
    while j < steps
        invariant
            y < file_data@.len(),
            file_data@.len() >= 1,
        decreases steps - j,
    {
        y = crate::motion::down(file_data, y);
        j = j + 1;
    }
    y
}

/// Scrolls half a terminal page of rows up, bounded by the first row.
fn half_page_up(cursor_y: usize, term_height: usize) -> (r: usize)
    ensures
        r <= cursor_y,
{
    let steps = term_height / 2 + term_height % 2;
    let mut y = cursor_y;
    let mut j: usize = 0;
    while j < steps
        invariant
            y <= cursor_y,
        decreases steps - j,
    {
        y = crate::motion::up(y);
        j = j + 1;
    }
    y
}

/// Copy of a key log.
fn clone_keys(v: &Vec<KeyInput>) -> (r: Vec<KeyInput>)
    ensures
        r@ == v@,
{
    let mut r: Vec<KeyInput> = Vec::new();
    let mut i: usize = 0;
    while i < v.len()
        invariant
            i <= v@.len(),
            r@ == v@.subrange(0, i as int),
        decreases v@.len() - i,
    {
        r.push(v[i]);
        proof {
            assert(r@ =~= v@.subrange(0, i + 1));
        }
        i = i + 1;
    }
    proof {
        assert(v@.subrange(0, v@.len() as int) =~= v@);
    }
    r
}

/// Replaces one row of the buffer.
pub(crate) fn set_row(file_data: &mut Vec<Vec<char>>, y: usize, row: Vec<char>)
    requires
        y < old(file_data)@.len(),
    ensures
        buf_view(final(file_data)@) == buf_view(old(file_data)@).update(y as int, row@),
        final(file_data)@.len() == old(file_data)@.len(),
{
    let ghost b = buf_view(file_data@);
    let ghost rv = row@;
    vstd::pervasive::VecAdditionalExecFns::set(file_data, y, row);
    proof {
        assert(buf_view(final(file_data)@) =~= b.update(y as int, rv));
    }
}

/// Removes one character of one row.
pub(crate) fn remove_row_char(file_data: &mut Vec<Vec<char>>, y: usize, x: usize)
    requires
        y < old(file_data)@.len(),
        x < old(file_data)@[y as int]@.len(),
    ensures
        buf_view(final(file_data)@) == buf_view(old(file_data)@).update(
            y as int,
            buf_view(old(file_data)@)[y as int].remove(x as int),
        ),
        final(file_data)@.len() == old(file_data)@.len(),
{
    let ghost b = buf_view(file_data@);
    let row = &file_data[y];
    let rl = row.len();
    proof {
        assert(x < rl);
    }
    let mut nr: Vec<char> = Vec::new();
    crate::text::push_range(&mut nr, row, 0, x);
    crate::text::push_range(&mut nr, row, x + 1, rl);
    proof {
        assert(nr@ =~= b[y as int].remove(x as int));
    }
    set_row(file_data, y, nr);
}

/// Inserts one character into one row.
pub(crate) fn insert_row_char(file_data: &mut Vec<Vec<char>>, y: usize, x: usize, c: char)
    requires
        y < old(file_data)@.len(),
        x <= old(file_data)@[y as int]@.len(),
    ensures
        buf_view(final(file_data)@) == buf_view(old(file_data)@).update(
            y as int,
            buf_view(old(file_data)@)[y as int].insert(x as int, c),
        ),
        final(file_data)@.len() == old(file_data)@.len(),
{
    let ghost b = buf_view(file_data@);
    let row = &file_data[y];
    let mut nr: Vec<char> = Vec::new();
    crate::text::push_range(&mut nr, row, 0, x);
    nr.push(c);
    crate::text::push_range(&mut nr, row, x, row.len());
    proof {
        assert(nr@ =~= b[y as int].insert(x as int, c));
    }
    set_row(file_data, y, nr);
}

} // verus!
