//! The client's chat log: the lines it shows, who wrote them, and how they are laid out.
use vstd::prelude::*;
use std::collections::VecDeque;
use crate::registry::RESERVED_ID_START;

verus! {

/// Author ids from this value up mark notices of the client itself; the ids from
/// `RESERVED_ID_START` below it mark notices about the server.
pub const SYSTEM_ID_START: u32 = 0xF000_0000;

/// The most lines the log keeps; older lines are dropped first.
pub const MAX_MESSAGE: usize = 100;

/// Width of the column that usernames are padded to.
pub const NAME_COLUMN: usize = 10;

/// Who a notice that no client wrote comes from.
#[derive(Clone, Copy, Debug, PartialEq, Eq, Structural)]
pub enum SystemUserType {
    /// The client program itself.
    System,
    /// The server.
    Server,
}

/// The kind of notice an author id marks, if it marks one.
pub open spec fn system_type_of(author_id: u32) -> Option<SystemUserType> {
    if author_id >= SYSTEM_ID_START {
        Some(SystemUserType::System)
    } else if author_id >= RESERVED_ID_START {
        Some(SystemUserType::Server)
    } else {
        None
    }
}

/// The colour a client's name is shown in, as red, green and blue, taken from bits of
/// its id.
pub open spec fn color_of(author_id: u32) -> (u8, u8, u8) {
    ((author_id >> 20u32) as u8, (author_id >> 4u32) as u8, (author_id >> 12u32) as u8)
}

/// The padding that follows a name of `len` bytes so that messages line up.
pub open spec fn spacer(len: usize) -> Seq<char> {
    if len < NAME_COLUMN {
        Seq::new((NAME_COLUMN - len) as nat, |i: int| ' ')
    } else {
        Seq::empty()
    }
}

/// One line of the chat log.
#[derive(Debug, Clone)]
pub struct Message {
    pub author_id: u32,
    pub author_username: String,
    pub message: String,
}

impl Message {
    /// Whether the line is a notice rather than a client's message.
    pub fn is_system(&self) -> (r: bool)
        ensures
            r == (self.author_id >= RESERVED_ID_START),
    {
        self.author_id >= RESERVED_ID_START
    }

    /// Who the notice comes from, for a notice.
    pub fn system_type(&self) -> (r: Option<SystemUserType>)
        ensures
            r == system_type_of(self.author_id),
            r is Some <==> self.author_id >= RESERVED_ID_START,
    {
        if !self.is_system() {
            None
        } else if self.author_id >= SYSTEM_ID_START {
            Some(SystemUserType::System)
        } else {
            Some(SystemUserType::Server)
        }
    }

    /// The colour of the author's name, for a client's message.
    pub fn username_color(&self) -> (r: (u8, u8, u8))
        ensures
            r == color_of(self.author_id),
    {
        ((self.author_id >> 20u32) as u8, (self.author_id >> 4u32) as u8, (self.author_id
            >> 12u32) as u8)
    }
}

/// Spaces that pad a name of `len` bytes to the name column.
pub fn get_spacer(len: usize) -> (r: &'static str)
    ensures
        r@ == spacer(len),
{
    proof {
        reveal_strlit("          ");
        reveal_strlit("         ");
        reveal_strlit("        ");
        reveal_strlit("       ");
        reveal_strlit("      ");
        reveal_strlit("     ");
        reveal_strlit("    ");
        reveal_strlit("   ");
        reveal_strlit("  ");
        reveal_strlit(" ");
        reveal_strlit("");
    }
    let r = match len {
        0 => "          ",
        1 => "         ",
        2 => "        ",
        3 => "       ",
        4 => "      ",
        5 => "     ",
        6 => "    ",
        7 => "   ",
        8 => "  ",
        9 => " ",
        _ => "",
    };
    assert(r@ =~= spacer(len));
    r
}

/// The chat log: at most `MAX_MESSAGE` lines, oldest first, and how far it is scrolled.
#[derive(Clone, Debug)]
pub struct MessageList {
    inner_list: VecDeque<Message>,
    message_scroll: usize,
}

impl MessageList {
    /// The lines, oldest first.
    pub closed spec fn lines(&self) -> Seq<Message> {
        self.inner_list@
    }

    /// How many lines are scrolled out of sight at the top.
    pub closed spec fn scrolled(&self) -> usize {
        self.message_scroll
    }

    /// The log holds no more than `MAX_MESSAGE` lines.
    pub open spec fn wf(&self) -> bool {
        self.lines().len() <= MAX_MESSAGE
    }

    /// An empty log.
    pub fn new() -> (r: MessageList)
        ensures
            r.wf(),
            r.lines() == Seq::<Message>::empty(),
            r.scrolled() == 0,
    {
        MessageList { inner_list: VecDeque::with_capacity(MAX_MESSAGE), message_scroll: 0 }
    }

    /// Appends a line, dropping the oldest one when the log is full.
    pub fn push_message(&mut self, message: Message)
        requires
            old(self).wf(),
        ensures
            final(self).wf(),
            final(self).lines() == if old(self).lines().len() == MAX_MESSAGE {
                old(self).lines().drop_first().push(message)
            } else {
                old(self).lines().push(message)
            },
            final(self).scrolled() == old(self).scrolled(),
    {
        if self.len() + 1 > MAX_MESSAGE {
            self.inner_list.pop_front();
        }
        self.inner_list.push_back(message);
    }

    /// The number of lines.
    pub fn len(&self) -> (r: usize)
        ensures
            r == self.lines().len(),
    {
        self.inner_list.len()
    }

    /// How many lines are scrolled out of sight at the top.
    pub fn scroll(&self) -> (r: usize)
        ensures
            r == self.scrolled(),
    {
        self.message_scroll
    }

    /// The line at position `i`, oldest first.
    pub fn get(&self, i: usize) -> (r: Option<&Message>)
        ensures
            i < self.lines().len() ==> r == Some(&self.lines()[i as int]),
            i >= self.lines().len() ==> r is None,
    {
        if i < self.inner_list.len() {
            Some(&self.inner_list[i])
        } else {
            None
        }
    }

    /// Scrolls one line up, unless already at the top.
    pub fn scroll_up(&mut self)
        ensures
            final(self).lines() == old(self).lines(),
            final(self).scrolled() == if old(self).scrolled() > 0 {
                (old(self).scrolled() - 1) as usize
            } else {
                0
            },
    {
        if self.message_scroll > 0 {
            self.message_scroll = self.message_scroll - 1;
        }
    }

    /// Scrolls one line down when the log has more lines than `rows` and is scrolled by
    /// less than `MAX_MESSAGE` lines.
    pub fn scroll_down(&mut self, rows: usize)
        ensures
            final(self).lines() == old(self).lines(),
            final(self).scrolled() == if old(self).lines().len() > rows && old(self).scrolled()
                < MAX_MESSAGE {
                (old(self).scrolled() + 1) as usize
            } else {
                old(self).scrolled()
            },
    {
        if self.inner_list.len() > rows && self.message_scroll < MAX_MESSAGE {
            self.message_scroll = self.message_scroll + 1;
        }
    }
}

} // verus!
