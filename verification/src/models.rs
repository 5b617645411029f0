//! The records that the service keeps: users, projects and the avatars of a project.

use vstd::prelude::*;
use vstd::string::StringExecFns;
use crate::oid::{hex_text, ObjectId};
use crate::text::{decimal, decimal_text};

verus! {

/// A record that can be summed up in one line.
pub trait Print {
    /// What is said of the record.
    spec fn informations_spec(&self) -> Seq<char>;

    /// The line that sums the record up.
    fn informations(&self) -> (line: String)
        ensures
            line@ == self.informations_spec(),
    ;
}

/// An image attached to a project. It is never changed once made, and belongs to one
/// project only.
#[derive(Debug)]
pub struct Avatar {
    pub id: ObjectId,
    pub name: String,
    pub mime_type: String,
    pub url: String,
}

/// The mathematical value of an [`Avatar`].
pub struct AvatarView {
    pub id: ObjectId,
    pub name: Seq<char>,
    pub mime_type: Seq<char>,
    pub url: Seq<char>,
}

impl View for Avatar {
    type V = AvatarView;

    open spec fn view(&self) -> AvatarView {
        AvatarView { id: self.id, name: self.name@, mime_type: self.mime_type@, url: self.url@ }
    }
}

impl Clone for Avatar {
    fn clone(&self) -> (copy: Avatar)
        ensures
            copy@ == self@,
    {
        Avatar {
            id: self.id,
            name: self.name.clone(),
            mime_type: self.mime_type.clone(),
            url: self.url.clone(),
        }
    }
}

/// A registered user. `projects` lists the projects that the user is a member of,
/// `invitations` those to which the user has been invited and has not yet answered.
#[derive(Debug)]
pub struct User {
    pub id: ObjectId,
    pub username: String,
    pub password: String,
    pub avatar: String,
    pub projects: Vec<ObjectId>,
    pub invitations: Vec<ObjectId>,
}

/// The mathematical value of a [`User`].
pub struct UserView {
    pub id: ObjectId,
    pub username: Seq<char>,
    pub password: Seq<char>,
    pub avatar: Seq<char>,
    pub projects: Seq<ObjectId>,
    pub invitations: Seq<ObjectId>,
}

impl UserView {
    /// No project is listed twice as a membership, nor twice as an invitation.
    pub open spec fn wf(self) -> bool {
        self.projects.no_duplicates() && self.invitations.no_duplicates()
    }

    /// No project is both a membership and an invitation of this user.
    pub open spec fn settled(self) -> bool {
        forall|p: ObjectId| !(self.projects.contains(p) && self.invitations.contains(p))
    }
}

impl View for User {
    type V = UserView;

    open spec fn view(&self) -> UserView {
        UserView {
            id: self.id,
            username: self.username@,
            password: self.password@,
            avatar: self.avatar@,
            projects: self.projects@,
            invitations: self.invitations@,
        }
    }
}

impl Clone for User {
    fn clone(&self) -> (copy: User)
        ensures
            copy@ == self@,
    {
        User {
            id: self.id,
            username: self.username.clone(),
            password: self.password.clone(),
            avatar: self.avatar.clone(),
            projects: copy_ids(&self.projects),
            invitations: copy_ids(&self.invitations),
        }
    }
}

impl Print for User {
    /// The name in brackets, then the number of memberships and of invitations.
    open spec fn informations_spec(&self) -> Seq<char> {
        "["@ + self.username@ + "] projects: "@ + decimal(self.projects@.len()) + ", invitations: "@
            + decimal(self.invitations@.len())
    }

    fn informations(&self) -> (line: String) {
        let mut line = "[".to_owned();
        line.append(self.username.as_str());
        line.append("] projects: ");
        line.append(decimal_text(self.projects.len() as u64).as_str());
        line.append(", invitations: ");
        line.append(decimal_text(self.invitations.len() as u64).as_str());
        line
    }
}

/// A user as offered for an invitation: the identifier and the name, nothing else.
#[derive(Debug)]
pub struct AvailableUser {
    pub id: ObjectId,
    pub username: String,
}

/// An invitation as it goes out to the invited user: the project as hexadecimal text,
/// the name of its owner, its region and its title.
#[derive(Debug)]
pub struct Invitation {
    pub id: String,
    pub author: String,
    pub region: String,
    pub title: String,
}

/// The mathematical value of an [`Invitation`].
pub struct InvitationText {
    pub id: Seq<char>,
    pub author: Seq<char>,
    pub region: Seq<char>,
    pub title: Seq<char>,
}

impl View for Invitation {
    type V = InvitationText;

    open spec fn view(&self) -> InvitationText {
        InvitationText {
            id: self.id@,
            author: self.author@,
            region: self.region@,
            title: self.title@,
        }
    }
}

/// A project. `members` lists its members in the order in which they joined, the owner
/// first; `invitations` lists the users invited and not yet answered; `avatars` grows at
/// its end and is never otherwise changed.
#[derive(Debug)]
pub struct Project {
    pub id: ObjectId,
    pub author: ObjectId,
    pub title: String,
    pub api_key: String,
    pub api_secret: String,
    pub region: String,
    pub members: Vec<ObjectId>,
    pub invitations: Vec<ObjectId>,
    pub avatars: Vec<Avatar>,
}

/// The mathematical value of a [`Project`].
pub struct ProjectView {
    pub id: ObjectId,
    pub author: ObjectId,
    pub title: Seq<char>,
    pub api_key: Seq<char>,
    pub api_secret: Seq<char>,
    pub region: Seq<char>,
    pub members: Seq<ObjectId>,
    pub invitations: Seq<ObjectId>,
    pub avatars: Seq<AvatarView>,
}

impl ProjectView {
    /// No user is listed twice as a member, nor twice as invited, and the owner is a
    /// member.
    pub open spec fn wf(self) -> bool {
        &&& self.members.no_duplicates()
        &&& self.invitations.no_duplicates()
        &&& self.members.contains(self.author)
    }

    /// No user is both a member of this project and invited to it.
    pub open spec fn settled(self) -> bool {
        forall|u: ObjectId| !(self.members.contains(u) && self.invitations.contains(u))
    }
}

/// The values of a list of avatars, in order.
pub open spec fn avatar_views(avatars: Seq<Avatar>) -> Seq<AvatarView> {
    Seq::new(avatars.len(), |i: int| avatars[i]@)
}

impl View for Project {
    type V = ProjectView;

    open spec fn view(&self) -> ProjectView {
        ProjectView {
            id: self.id,
            author: self.author,
            title: self.title@,
            api_key: self.api_key@,
            api_secret: self.api_secret@,
            region: self.region@,
            members: self.members@,
            invitations: self.invitations@,
            avatars: avatar_views(self.avatars@),
        }
    }
}

impl Clone for Project {
    fn clone(&self) -> (copy: Project)
        ensures
            copy@ == self@,
    {
        Project {
            id: self.id,
            author: self.author,
            title: self.title.clone(),
            api_key: self.api_key.clone(),
            api_secret: self.api_secret.clone(),
            region: self.region.clone(),
            members: copy_ids(&self.members),
            invitations: copy_ids(&self.invitations),
            avatars: copy_avatars(&self.avatars),
        }
    }
}

impl Print for Project {
    /// The title in brackets, then the owner.
    open spec fn informations_spec(&self) -> Seq<char> {
        "["@ + self.title@ + "] author: "@ + hex_text(self.author.bytes@)
    }

    fn informations(&self) -> (line: String) {
        let mut line = "[".to_owned();
        line.append(self.title.as_str());
        line.append("] author: ");
        line.append(self.author.to_hex().as_str());
        line
    }
}

/// A copy of a list of identifiers.
pub fn copy_ids(ids: &Vec<ObjectId>) -> (copy: Vec<ObjectId>)
    ensures
        copy@ == ids@,
{
    let mut copy: Vec<ObjectId> = Vec::new();
    let mut i: usize = 0;
    while i < ids.len()
        invariant
            i <= ids.len(),
            copy@ == ids@.subrange(0, i as int),
        decreases ids.len() - i,
    {
        copy.push(ids[i]);
        i = i + 1;
    }
    copy
}

/// A copy of a list of avatars.
pub fn copy_avatars(avatars: &Vec<Avatar>) -> (copy: Vec<Avatar>)
    ensures
        avatar_views(copy@) == avatar_views(avatars@),
{
    let mut copy: Vec<Avatar> = Vec::new();
    let mut i: usize = 0;
    while i < avatars.len()
        invariant
            i <= avatars.len(),
            copy.len() == i,
            forall|k: int| 0 <= k < i ==> copy[k]@ == avatars[k]@,
        decreases avatars.len() - i,
    {
        copy.push(avatars[i].clone());
        i = i + 1;
    }
    copy
}

} // verus!
