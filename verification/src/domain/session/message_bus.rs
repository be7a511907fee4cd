use vstd::prelude::*;

use crate::text::{
    concat2, decimal, is_empty_text, join_path, join_path_seq, lines, lines_of, owned, push_str,
    str_eq, trim, trim_seq, usize_to_decimal,
};

verus! {

/// The mailboxes of a team: one JSON-lines file per member under the inbox
/// directory. Reading and writing the files is left to the caller.
#[derive(Debug, Clone)]
pub struct MessageBus {
    pub inbox_dir: String,
}

/// The inbox file of a member.
pub open spec fn inbox_file(inbox_dir: Seq<char>, name: Seq<char>) -> Seq<char> {
    join_path_seq(inbox_dir, name + ".jsonl"@)
}

/// The non-blank lines of a text, in order.
pub open spec fn non_blank_lines(ls: Seq<Seq<char>>) -> Seq<Seq<char>> {
    ls.filter(|l: Seq<char>| trim_seq(l).len() > 0)
}

/// The members other than the sender, in order.
pub open spec fn others(names: Seq<Seq<char>>, sender: Seq<char>) -> Seq<Seq<char>> {
    names.filter(|n: Seq<char>| n != sender)
}

impl MessageBus {
    /// The bus of a team directory: its inboxes live under `inbox`.
    pub fn new(team_dir: &str) -> (b: Self)
        ensures
            b.inbox_dir@ == join_path_seq(team_dir@, "inbox"@),
    {
        MessageBus { inbox_dir: join_path(team_dir, "inbox") }
    }

    /// The inbox file of `name`.
    pub fn inbox_path(&self, name: &str) -> (p: String)
        ensures
            p@ == inbox_file(self.inbox_dir@, name@),
    {
        let file = concat2(name, ".jsonl");
        join_path(self.inbox_dir.as_str(), file.as_str())
    }

    /// The inbox to create for a member: the name trimmed, or none when blank.
    pub fn inbox_to_create(&self, name: &str) -> (p: Option<String>)
        ensures
            trim_seq(name@).len() == 0 ==> p is None,
            trim_seq(name@).len() > 0 ==> (p matches Some(path) && path@ == inbox_file(
                self.inbox_dir@,
                trim_seq(name@),
            )),
    {
        let name = trim(name);
        if is_empty_text(name.as_str()) {
            None
        } else {
            Some(self.inbox_path(name.as_str()))
        }
    }

    /// The reply to a sent message.
    pub fn send_reply(&self, to: &str, msg_type: &str) -> (s: String)
        ensures
            s@ == "Sent "@ + msg_type@ + " to "@ + to@,
    {
        let mut s = concat2("Sent ", msg_type);
        push_str(&mut s, " to ");
        push_str(&mut s, to);
        s
    }

    /// The messages of an inbox file: its non-blank lines, each one JSON
    /// message.
    pub fn inbox_messages(&self, content: &str) -> (v: Vec<String>)
        ensures
            v@.map_values(|l: String| l@) == non_blank_lines(lines_of(content@)),
    {
        let all = lines(content);
        let ghost ls = lines_of(content@);
        let mut v: Vec<String> = Vec::new();
        let mut i: usize = 0;
        while i < all.len()
            invariant
                0 <= i <= all.len(),
                all@.map_values(|l: String| l@) == ls,
                v@.map_values(|l: String| l@) == non_blank_lines(ls.take(i as int)),
            decreases all.len() - i,
        {
            proof {
                reveal(Seq::filter);
                assert(ls.take(i + 1).drop_last() =~= ls.take(i as int));
                assert(ls[i as int] == all@[i as int]@);
            }
            let line = &all[i];
            if !is_empty_text(trim(line.as_str()).as_str()) {
                let ghost before = v@.map_values(|l: String| l@);
                v.push(owned(line.as_str()));
                assert(v@.map_values(|l: String| l@) =~= before.push(line@));
            }
            i += 1;
        }
        assert(ls.take(all.len() as int) =~= ls);
        v
    }

    /// Who a broadcast goes to: every member with an inbox but the sender.
    pub fn broadcast_targets(&self, names: &Vec<String>, sender: &str) -> (v: Vec<String>)
        ensures
            v@.map_values(|n: String| n@) == others(names@.map_values(|n: String| n@), sender@),
    {
        let ghost ns = names@.map_values(|n: String| n@);
        let mut v: Vec<String> = Vec::new();
        let mut i: usize = 0;
        while i < names.len()
            invariant
                0 <= i <= names.len(),
                ns == names@.map_values(|n: String| n@),
                v@.map_values(|n: String| n@) == others(ns.take(i as int), sender@),
            decreases names.len() - i,
        {
            proof {
                reveal(Seq::filter);
                assert(ns.take(i + 1).drop_last() =~= ns.take(i as int));
                assert(ns[i as int] == names@[i as int]@);
            }
            if !str_eq(names[i].as_str(), sender) {
                let ghost before = v@.map_values(|n: String| n@);
                v.push(owned(names[i].as_str()));
                assert(v@.map_values(|n: String| n@) =~= before.push(names@[i as int]@));
            }
            i += 1;
        }
        assert(ns.take(names.len() as int) =~= ns);
        v
    }

    /// The reply to a broadcast that reached `count` members.
    pub fn broadcast_reply(&self, count: usize) -> (s: String)
        ensures
            s@ == "Broadcast to "@ + decimal(count as nat) + " teammates"@,
    {
        let mut s = concat2("Broadcast to ", usize_to_decimal(count).as_str());
        push_str(&mut s, " teammates");
        s
    }
}

} // verus!
