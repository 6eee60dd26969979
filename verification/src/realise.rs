//! Realising a flake output: which call into the Nix library comes next, what a reply to it means, and
//! what has to be freed.

use crate::error;
use crate::error::Error;
use crate::nix;
use crate::nix::{Call, Check, Handle, Op, Request};
use crate::path;
use crate::text;
use vstd::prelude::*;
use vstd::string::StringExecFns;

verus! {

/// The error that the library's context holds after a call, if its code is not zero.
pub struct Status {
    pub code: i32,
    /// The bytes of the message, if there is one.
    pub message: Option<Vec<u8>>,
}

/// The model of a status.
pub struct StatusModel {
    pub code: int,
    pub message: Option<Seq<u8>>,
}

impl View for Status {
    type V = StatusModel;

    open spec fn view(&self) -> StatusModel {
        StatusModel {
            code: self.code as int,
            message: match self.message {
                Some(m) => Some(m@),
                None => None,
            },
        }
    }
}

/// The error that a status stands for, if it stands for one.
pub open spec fn status_error(status: StatusModel) -> Option<Seq<char>> {
    if status.code == 0 {
        None
    } else {
        Some(
            "nix error "@ + text::decimal_int(status.code) + ": "@ + match status.message {
                Some(m) => path::utf8_lossy(m),
                None => "(no message)"@,
            },
        )
    }
}

impl Status {
    /// Fails if the library reported an error.
    pub fn check(&self) -> (r: Result<(), Error>)
        ensures
            r is Ok <==> status_error(self@) is None,
            r matches Err(e) ==> status_error(self@) == Some(e@),
    {
        if self.code == 0 {
            return Ok(());
        }
        let message = match &self.message {
            Some(bytes) => path::lossy_text(bytes),
            None => "(no message)".to_owned(),
        };
        Err(
            Error::new(
                "nix error ".to_owned().concat(
                    text::decimal_int_text(self.code).as_str(),
                ).concat(": ").concat(message.as_str()),
            ),
        )
    }
}

/// What came of a call.
pub struct Reply {
    /// What the call returned, where it returns a code.
    pub rc: i32,
    pub status: Status,
    /// Whether the call was to give an object and gave none.
    pub null: bool,
    /// The text that the call gave, as bytes.
    pub text: Vec<u8>,
    /// Why the host could not do its part.
    pub host_error: Option<String>,
}

/// The model of a reply.
pub struct ReplyModel {
    pub rc: int,
    pub status: StatusModel,
    pub null: bool,
    pub text: Seq<u8>,
    pub host_error: Option<Seq<char>>,
}

impl View for Reply {
    type V = ReplyModel;

    open spec fn view(&self) -> ReplyModel {
        ReplyModel {
            rc: self.rc as int,
            status: self.status@,
            null: self.null,
            text: self.text@,
            host_error: match self.host_error {
                Some(e) => Some(e@),
                None => None,
            },
        }
    }
}

/// The error of a call whose status is `status`, in the circumstance `what`.
pub open spec fn status_failure(what: Seq<char>, status: StatusModel) -> Option<Seq<char>> {
    match status_error(status) {
        Some(e) => Some(error::within(what, e)),
        None => None,
    }
}

/// The error in which a call ends, if it ends in one.
pub open spec fn failure(check: Check<Seq<char>>, reply: ReplyModel) -> Option<Seq<char>> {
    match check {
        Check::Never => None,
        Check::Tolerated { what } => None,
        Check::Null { null } => if reply.null {
            Some(null)
        } else {
            None
        },
        Check::Status { what } => status_failure(what, reply.status),
        Check::StatusOrNull { what, null } => if status_error(reply.status) is Some {
            status_failure(what, reply.status)
        } else if reply.null {
            Some(null)
        } else {
            None
        },
        Check::Directory => if reply.host_error is Some {
            Some(error::within("getcwd"@, reply.host_error->0))
        } else if !vstd::utf8::valid_utf8(reply.text) {
            Some("cwd not UTF-8"@)
        } else {
            None
        },
        Check::Text { what } => if reply.rc != 0 && status_error(reply.status) is Some {
            status_failure(what, reply.status)
        } else if !vstd::utf8::valid_utf8(reply.text) {
            Some(
                error::within(
                    what,
                    error::within(
                        "nix returned non-UTF8 string"@,
                        path::utf8_error(reply.text),
                    ),
                ),
            )
        } else {
            None
        },
        Check::Reference { what, null, fragment } => if status_error(reply.status) is Some {
            status_failure(what, reply.status)
        } else if reply.null {
            Some(null)
        } else if !vstd::utf8::valid_utf8(reply.text) {
            Some(error::within(fragment, path::utf8_error(reply.text)))
        } else {
            None
        },
    }
}

/// The warning that a call is worth, if it is worth one.
pub open spec fn warning(check: Check<Seq<char>>, reply: ReplyModel) -> Option<Seq<char>> {
    match check {
        Check::Tolerated { what } => status_failure(what, reply.status),
        _ => None,
    }
}

/// Whether the text that a call gives is needed later.
pub open spec fn keeps_text(call: Call<Seq<char>>) -> bool {
    match call.check {
        Check::Directory => true,
        Check::Text { what } => true,
        Check::Reference { what, null, fragment } => call.gives == Some(Handle::FlakeRef),
        _ => false,
    }
}

/// `held` without the topmost occurrence of `handle`.
pub open spec fn without(held: Seq<Handle>, handle: Handle) -> Seq<Handle>
    decreases held.len(),
{
    if held.len() == 0 {
        held
    } else if held.last() == handle {
        held.drop_last()
    } else {
        without(held.drop_last(), handle).push(held.last())
    }
}

/// `held` with `handle` right above the topmost occurrence of `base`, or at the bottom.
pub open spec fn above(held: Seq<Handle>, base: Handle, handle: Handle) -> Seq<Handle>
    decreases held.len(),
{
    if held.len() == 0 {
        seq![handle]
    } else if held.last() == base {
        held.push(handle)
    } else {
        above(held.drop_last(), base, handle).push(held.last())
    }
}

/// What has to be freed once `handle` has been given too, from the last to the first.  The reference
/// of an override goes below the lock flags, which borrow it.
pub open spec fn with_handle(held: Seq<Handle>, handle: Handle) -> Seq<Handle> {
    match handle {
        Handle::Override(_) => above(held, Handle::FlakeRef, handle),
        _ => held.push(handle),
    }
}

/// What has to be freed after a call that did not fail.
pub open spec fn held_next(held: Seq<Handle>, call: Call<Seq<char>>) -> Seq<Handle> {
    match call.op {
        Op::Free { handle } => without(held, handle),
        _ => match call.gives {
            Some(handle) => with_handle(held, handle),
            None => held,
        },
    }
}

/// What has to be freed after calls of which none failed.
pub open spec fn held_after(calls: Seq<Call<Seq<char>>>) -> Seq<Handle>
    decreases calls.len(),
{
    if calls.len() == 0 {
        Seq::empty()
    } else {
        held_next(held_after(calls.drop_last()), calls.last())
    }
}

/// How many texts calls give that are needed later.
pub open spec fn texts_given(calls: Seq<Call<Seq<char>>>) -> nat
    decreases calls.len(),
{
    if calls.len() == 0 {
        0
    } else {
        texts_given(calls.drop_last()) + (if keeps_text(calls.last()) {
            1nat
        } else {
            0nat
        })
    }
}

/// The texts that are needed later, of the replies to the calls of a script.
pub open spec fn texts_after(request: nix::RequestModel, replies: Seq<ReplyModel>) -> Seq<Seq<char>>
    decreases replies.len(),
{
    if replies.len() == 0 {
        Seq::empty()
    } else {
        let before = texts_after(request, replies.drop_last());
        let call = nix::script_so_far(request, before)[replies.len() - 1];
        if keeps_text(call) {
            before.push(vstd::utf8::decode_utf8(replies.last().text))
        } else {
            before
        }
    }
}

/// Whether these can be the replies to the first calls of a script, none of which failed.
pub open spec fn is_course(request: nix::RequestModel, replies: Seq<ReplyModel>) -> bool
    decreases replies.len(),
{
    replies.len() == 0 || {
        let front = replies.drop_last();
        let calls = nix::script_so_far(request, texts_after(request, front));
        &&& is_course(request, front)
        &&& front.len() < calls.len()
        &&& !(calls[front.len() as int].op is Refuse)
        &&& failure(calls[front.len() as int].check, replies.last()) is None
    }
}

fn failure_of(check: &Check<String>, reply: &Reply) -> (r: Option<Error>)
    ensures
        r is Some <==> failure(check@, reply@) is Some,
        r matches Some(e) ==> failure(check@, reply@) == Some(e@),
{
    match check {
        Check::Never => None,
        Check::Tolerated { what } => None,
        Check::Null { null } => if reply.null {
            Some(Error::new(null.clone()))
        } else {
            None
        },
        Check::Status { what } => match reply.status.check() {
            Err(e) => Some(e.within(what.as_str())),
            Ok(()) => None,
        },
        Check::StatusOrNull { what, null } => match reply.status.check() {
            Err(e) => Some(e.within(what.as_str())),
            Ok(()) => if reply.null {
                Some(Error::new(null.clone()))
            } else {
                None
            },
        },
        Check::Directory => match &reply.host_error {
            Some(cause) => Some(Error::of("getcwd", cause.as_str())),
            None => match path::utf8_text(vstd::slice::slice_to_vec(reply.text.as_slice())) {
                Err(_) => Some(Error::new("cwd not UTF-8".to_owned())),
                Ok(_) => None,
            },
        },
        Check::Text { what } => {
            if reply.rc != 0 {
                if let Err(e) = reply.status.check() {
                    return Some(e.within(what.as_str()));
                }
            }
            match path::utf8_text(vstd::slice::slice_to_vec(reply.text.as_slice())) {
                Err(cause) => Some(
                    Error::of("nix returned non-UTF8 string", cause.as_str()).within(
                        what.as_str(),
                    ),
                ),
                Ok(_) => None,
            }
        },
        Check::Reference { what, null, fragment } => match reply.status.check() {
            Err(e) => Some(e.within(what.as_str())),
            Ok(()) => if reply.null {
                Some(Error::new(null.clone()))
            } else {
                match path::utf8_text(vstd::slice::slice_to_vec(reply.text.as_slice())) {
                    Err(cause) => Some(Error::of(fragment.as_str(), cause.as_str())),
                    Ok(_) => None,
                }
            },
        },
    }
}

fn warning_of(check: &Check<String>, reply: &Reply) -> (r: Option<Error>)
    ensures
        r is Some <==> warning(check@, reply@) is Some,
        r matches Some(e) ==> warning(check@, reply@) == Some(e@),
{
    match check {
        Check::Tolerated { what } => match reply.status.check() {
            Err(e) => Some(e.within(what.as_str())),
            Ok(()) => None,
        },
        _ => None,
    }
}

fn remove_handle(held: &mut Vec<Handle>, handle: Handle)
    ensures
        final(held)@ == without(old(held)@, handle),
{
    let ghost start = held@;
    let mut i: usize = held.len();
    assert(start.take(i as int) =~= start);
    while i > 0
        invariant
            i <= start.len(),
            held@ == start,
            start == old(held)@,
            without(start, handle) == without(start.take(i as int), handle) + start.skip(i as int),
        decreases i,
    {
        let ghost front = start.take(i as int);
        if held[i - 1] == handle {
            assert(front.last() == handle);
            held.remove(i - 1);
            assert(held@ =~= front.drop_last() + start.skip(i as int));
            return;
        }
        assert(front.drop_last() =~= start.take(i - 1));
        assert(without(start.take(i - 1), handle).push(front.last()) + start.skip(i as int)
            =~= without(start.take(i - 1), handle) + start.skip(i - 1));
        i = i - 1;
    }
    assert(without(start.take(0), handle) + start.skip(0) =~= start);
}

fn add_above(held: &mut Vec<Handle>, base: Handle, handle: Handle)
    ensures
        final(held)@ == above(old(held)@, base, handle),
{
    let ghost start = held@;
    let mut i: usize = held.len();
    assert(start.take(i as int) =~= start);
    while i > 0
        invariant
            i <= start.len(),
            held@ == start,
            start == old(held)@,
            above(start, base, handle) == above(start.take(i as int), base, handle) + start.skip(
                i as int,
            ),
        decreases i,
    {
        let ghost front = start.take(i as int);
        if held[i - 1] == base {
            assert(front.last() == base);
            held.insert(i, handle);
            assert(held@ =~= front.push(handle) + start.skip(i as int));
            return;
        }
        assert(front.drop_last() =~= start.take(i - 1));
        assert(above(start.take(i - 1), base, handle).push(front.last()) + start.skip(i as int)
            =~= above(start.take(i - 1), base, handle) + start.skip(i - 1));
        i = i - 1;
    }
    held.insert(0, handle);
    assert(held@ =~= above(start.take(0), base, handle) + start.skip(0));
}

fn hold(held: &mut Vec<Handle>, handle: Handle)
    ensures
        final(held)@ == with_handle(old(held)@, handle),
{
    match handle {
        Handle::Override(_) => {
            add_above(held, Handle::FlakeRef, handle);
        },
        _ => {
            held.push(handle);
        },
    }
}

/// What a realised flake output consists of.
pub struct Realised {
    /// The image of the root file system.
    pub image_file: String,
    /// The directory with the kernel, its parameters and the initial RAM disk.
    pub toplevel: String,
    /// The directory with the registration of the system's closure.
    pub closure_info: String,
}

/// The model of a realised flake output.
pub struct RealisedModel {
    pub image_file: Seq<char>,
    pub toplevel: Seq<char>,
    pub closure_info: Seq<char>,
}

impl View for Realised {
    type V = RealisedModel;

    open spec fn view(&self) -> RealisedModel {
        RealisedModel {
            image_file: self.image_file@,
            toplevel: self.toplevel@,
            closure_info: self.closure_info@,
        }
    }
}

/// The flake output that was realised once all the texts have been read.
pub open spec fn realised_from(texts: Seq<Seq<char>>) -> RealisedModel {
    RealisedModel {
        image_file: texts[3] + "/"@ + texts[4],
        toplevel: texts[5],
        closure_info: texts[7],
    }
}

/// What is to be done next.
pub enum Next<'a> {
    /// Perform a call and answer it.
    Perform(&'a Op<String>),
    /// Free an object and say so.
    Free(Handle),
    /// Nothing: take the outcome.
    Finish,
}

/// The realisation of a flake output.
pub struct Realisation {
    pub request: Request,
    pub calls: Vec<Call<String>>,
    pub next: usize,
    pub held: Vec<Handle>,
    pub read: Vec<String>,
    pub failed: Option<Error>,
    /// The replies to the calls that were made and did not fail.
    pub replies: Ghost<Seq<ReplyModel>>,
}

impl Realisation {
    /// The script as far as it is known.
    pub open spec fn script(&self) -> Seq<Call<Seq<char>>> {
        nix::script(self.calls@)
    }

    /// The texts that were read.
    pub open spec fn texts(&self) -> Seq<Seq<char>> {
        text::texts(self.read@)
    }

    /// The error in which the realisation ended, if it did.
    pub open spec fn error(&self) -> Option<Seq<char>> {
        match self.failed {
            Some(e) => Some(e@),
            None => None,
        }
    }

    /// Whether no call is left to make.
    pub open spec fn over(&self) -> bool {
        self.failed is Some || self.next == self.calls@.len()
    }

    /// What holds at any time.
    pub open spec fn wf(&self) -> bool {
        &&& self.script() == nix::script_so_far(self.request@, self.texts())
        &&& self.texts() == texts_after(self.request@, self.replies@)
        &&& is_course(self.request@, self.replies@)
        &&& self.replies@.len() == self.next
        &&& self.next <= self.calls@.len()
        &&& self.read@.len() == texts_given(self.script().take(self.next as int))
        &&& forall|i: int|
            0 <= i < self.next ==> !((#[trigger] self.script()[i]).op is Refuse)
        &&& self.failed is None && self.next < self.calls@.len() ==> !(
        self.script()[self.next as int].op is Refuse)
        &&& self.held@.len() <= held_after(self.script().take(self.next as int)).len()
        &&& self.held@ == held_after(self.script().take(self.next as int)).take(
            self.held@.len() as int,
        )
        &&& !self.over() ==> self.held@ == held_after(self.script().take(self.next as int))
    }

    /// The state after a call that did not fail, with the reply to it.
    pub open spec fn advanced(&self, reply: ReplyModel, after: &Realisation) -> bool {
        let call = self.script()[self.next as int];
        &&& after.request == self.request
        &&& after.replies@ == self.replies@.push(reply)
        &&& after.next == self.next + 1
        &&& after.held@ == held_next(self.held@, call)
        &&& after.texts() == (if keeps_text(call) {
            self.texts().push(vstd::utf8::decode_utf8(reply.text))
        } else {
            self.texts()
        })
        &&& after.script() == nix::script_so_far(self.request@, after.texts())
        &&& after.error() == after.refusal()
    }

    /// The error in which the script ends right here, if it does.
    pub open spec fn refusal(&self) -> Option<Seq<char>> {
        if self.next < self.script().len() {
            match self.script()[self.next as int].op {
                Op::Refuse { text } => Some(text),
                _ => None,
            }
        } else {
            None
        }
    }

    /// Begins to realise what is asked for.
    pub fn new(request: Request) -> (r: Realisation)
        ensures
            r.wf(),
            r.request == request,
            r.next == 0,
            r.held@.len() == 0,
            r.read@.len() == 0,
            r.failed is None,
            r.replies@.len() == 0,
    {
        let calls = nix::make_first_part(&request);
        let r = Realisation {
            request,
            calls,
            next: 0,
            held: Vec::new(),
            read: Vec::new(),
            failed: None,
            replies: Ghost(Seq::empty()),
        };
        reveal(nix::script_so_far);
        assert(r.texts() =~= Seq::empty());
        assert(r.script() =~= nix::script_so_far(r.request@, r.texts()));
        assert(r.script().take(0) =~= Seq::empty());
        assert(r.script()[0] == nix::starting_part()[0]);
        assert(r.held@ =~= held_after(r.script().take(0)).take(0));
        assert(r.held@ =~= held_after(r.script().take(0)));
        r
    }

    /// What is to be done next.
    pub fn current(&self) -> (n: Next<'_>)
        requires
            self.wf(),
        ensures
            match n {
                Next::Perform(op) => !self.over() && op@ == self.script()[self.next as int].op,
                Next::Free(handle) => self.over() && self.held@.len() > 0 && handle
                    == self.held@.last(),
                Next::Finish => self.over() && self.held@.len() == 0,
            },
    {
        if self.failed.is_none() && self.next < self.calls.len() {
            Next::Perform(&self.calls[self.next].op)
        } else {
            let n: usize = self.held.len();
            if n > 0 {
                Next::Free(self.held[n - 1])
            } else {
                Next::Finish
            }
        }
    }

    /// Takes note of the reply to the call that was to be performed, and gives the warning that the
    /// call is worth, if any.
    pub fn answered(&mut self, reply: Reply) -> (w: Option<Error>)
        requires
            old(self).wf(),
            !old(self).over(),
        ensures
            final(self).wf(),
            ({
                let check = old(self).script()[old(self).next as int].check;
                &&& w is Some <==> warning(check, reply@) is Some
                &&& w matches Some(e) ==> warning(check, reply@) == Some(e@)
                &&& match failure(check, reply@) {
                    Some(text) => {
                        &&& final(self).error() == Some(text)
                        &&& final(self).request == old(self).request
                        &&& final(self).calls == old(self).calls
                        &&& final(self).next == old(self).next
                        &&& final(self).held == old(self).held
                        &&& final(self).read == old(self).read
                        &&& final(self).replies == old(self).replies
                    },
                    None => old(self).advanced(reply@, final(self)),
                }
            }),
    {
        let at: usize = self.next;
        assert(self.script()[at as int] == self.calls@[at as int]@);
        let w = warning_of(&self.calls[at].check, &reply);
        if let Some(e) = failure_of(&self.calls[at].check, &reply) {
            self.failed = Some(e);
            return w;
        }
        self.advance(reply);
        w
    }

    /// Takes note of a call that did not fail.
    fn advance(&mut self, reply: Reply)
        requires
            old(self).wf(),
            !old(self).over(),
            failure(old(self).script()[old(self).next as int].check, reply@) is None,
        ensures
            final(self).wf(),
            old(self).advanced(reply@, final(self)),
    {
        let ghost start = *self;
        let ghost model = reply@;
        let at: usize = self.next;
        let ghost call = self.script()[at as int];
        assert(call == self.calls@[at as int]@);
        let gives = self.calls[at].gives;
        let keep = match &self.calls[at].check {
            Check::Directory => true,
            Check::Text { what } => true,
            Check::Reference { what, null, fragment } => match gives {
                Some(Handle::FlakeRef) => true,
                _ => false,
            },
            _ => false,
        };
        match &self.calls[at].op {
            Op::Free { handle } => {
                let freed = *handle;
                remove_handle(&mut self.held, freed);
            },
            _ => {
                if let Some(handle) = gives {
                    hold(&mut self.held, handle);
                }
            },
        }
        if keep {
            self.keep(reply.text);
        }
        assert(at < start.calls.len());
        self.next = at + 1;
        self.replies = Ghost(self.replies@.push(model));
        proof {
            assert(self.replies@.drop_last() =~= start.replies@);
            let before = start.script();
            let after = self.script();
            lemma_script_grows(self.request@, start.texts(), self.texts());
            assert(after.take(at as int) =~= before.take(at as int));
            assert(after.take(at + 1).drop_last() =~= before.take(at as int));
            assert(after.take(at + 1).last() == call);
            assert forall|i: int| 0 <= i < before.len() implies before[i] == after[i] by {
                assert(after.take(before.len() as int)[i] == before[i]);
            }
            assert forall|i: int| 0 <= i < self.next implies !((#[trigger] after[i]).op is Refuse) by {
                assert(after[i] == before[i]);
            }
            assert(self.held@ == held_after(after.take(at + 1)));
            assert(self.held@.take(self.held@.len() as int) =~= self.held@);
            assert(texts_given(after.take(at + 1)) == self.texts().len());
        }
        self.settle();
    }

    /// Keeps a text that was read and adds the part of the script that it was needed for.
    fn keep(&mut self, bytes: Vec<u8>)
        requires
            vstd::utf8::valid_utf8(bytes@),
            old(self).script() == nix::script_so_far(old(self).request@, old(self).texts()),
        ensures
            final(self).texts() == old(self).texts().push(vstd::utf8::decode_utf8(bytes@)),
            final(self).script() == nix::script_so_far(final(self).request@, final(self).texts()),
            final(self).request == old(self).request,
            final(self).next == old(self).next,
            final(self).held == old(self).held,
            final(self).failed == old(self).failed,
            final(self).replies == old(self).replies,
    {
        reveal(nix::script_so_far);
        let ghost start = *self;
        if let Ok(given) = path::utf8_text(bytes) {
            self.read.push(given);
            assert(self.texts() =~= start.texts().push(given@));
        }
        let n: usize = self.read.len();
        assert(self.texts().len() == n);
        assert forall|i: int| 0 <= i < n implies self.texts()[i] == self.read@[i]@ by {}
        if n == 1 {
            nix::add_second_part(&mut self.calls, &self.request, &self.read[0]);
        } else if n == 2 {
            nix::add_third_part(&mut self.calls, &self.request, &self.read[1]);
        } else if n == 8 {
            nix::add_fourth_part(&mut self.calls, &self.read[2], &self.read[6]);
        }
        assert(self.script() =~= nix::script_so_far(self.request@, self.texts()));
    }

    /// Ends the realisation in an error if the script does so right here.
    fn settle(&mut self)
        requires
            old(self).failed is None,
        ensures
            final(self).request == old(self).request,
            final(self).calls == old(self).calls,
            final(self).next == old(self).next,
            final(self).held == old(self).held,
            final(self).read == old(self).read,
            final(self).replies == old(self).replies,
            final(self).error() == old(self).refusal(),
    {
        if self.next < self.calls.len() {
            assert(self.script()[self.next as int] == self.calls@[self.next as int]@);
            if let Op::Refuse { text } = &self.calls[self.next].op {
                self.failed = Some(Error::new(text.clone()));
            }
        }
    }
}

impl Realisation {
    /// Takes note that the object that was to be freed has been freed.
    pub fn freed(&mut self)
        requires
            old(self).wf(),
            old(self).over(),
            old(self).held@.len() > 0,
        ensures
            final(self).wf(),
            final(self).over(),
            final(self).held@ == old(self).held@.drop_last(),
            final(self).request == old(self).request,
            final(self).calls == old(self).calls,
            final(self).next == old(self).next,
            final(self).read == old(self).read,
            final(self).failed == old(self).failed,
            final(self).replies == old(self).replies,
    {
        let ghost start = *self;
        self.held.pop();
        assert(self.held@ =~= held_after(self.script().take(self.next as int)).take(
            self.held@.len() as int,
        ));
    }

    /// The outcome, once everything has been freed.
    pub fn finish(self) -> (r: Result<Realised, Error>)
        requires
            self.wf(),
            self.over(),
            self.held@.len() == 0,
        ensures
            r is Err <==> self.failed is Some,
            r matches Err(e) ==> self.error() == Some(e@),
            r matches Ok(realised) ==> {
                &&& self.texts().len() == 8
                &&& realised@ == realised_from(self.texts())
            },
    {
        if let Some(e) = self.failed {
            return Err(e);
        }
        proof {
            assert(self.script().take(self.next as int) =~= self.script());
            lemma_all_texts_read(self.request@, self.texts());
            assert forall|i: int| 0 <= i < 8 implies self.texts()[i] == self.read@[i]@ by {}
        }
        Ok(
            Realised {
                image_file: self.read[3].clone().concat("/").concat(self.read[4].as_str()),
                toplevel: self.read[5].clone(),
                closure_info: self.read[7].clone(),
            },
        )
    }
}

pub proof fn lemma_texts_concat(a: Seq<Call<Seq<char>>>, b: Seq<Call<Seq<char>>>)
    ensures
        texts_given(a + b) == texts_given(a) + texts_given(b),
    decreases b.len(),
{
    if b.len() == 0 {
        assert(a + b =~= a);
    } else {
        assert((a + b).drop_last() =~= a + b.drop_last());
        lemma_texts_concat(a, b.drop_last());
    }
}

proof fn lemma_texts_settings(settings: Seq<(Seq<char>, Seq<char>)>)
    ensures
        texts_given(nix::settings_part(settings)) == 0,
    decreases settings.len(),
{
    if settings.len() > 0 {
        assert(nix::settings_part(settings).drop_last() =~= nix::settings_part(
            settings.drop_last(),
        ));
        lemma_texts_settings(settings.drop_last());
    }
}

pub proof fn lemma_texts_overrides(overrides: Seq<(Seq<char>, Seq<char>)>)
    ensures
        texts_given(nix::overrides_part(overrides)) == 0,
    decreases overrides.len(),
{
    if overrides.len() > 0 {
        lemma_texts_overrides(overrides.drop_last());
        let part = nix::overrides_part(overrides);
        let before = nix::overrides_part(overrides.drop_last());
        assert(part.drop_last().drop_last() =~= before);
        assert(texts_given(part.drop_last()) == texts_given(part.drop_last().drop_last()));
    }
}

proof fn lemma_texts_descent(path: Seq<char>, segments: Seq<Seq<char>>)
    ensures
        texts_given(nix::descent(Handle::Outputs, path, segments)) == 0,
    decreases segments.len(),
{
    if segments.len() > 0 {
        lemma_texts_descent(path, segments.drop_last());
        let before = nix::descent(Handle::Outputs, path, segments.drop_last());
        let part = nix::descent(Handle::Outputs, path, segments);
        let reached = part.take((before.len() + 2) as int);
        assert(reached.drop_last().drop_last() =~= before);
        assert(texts_given(reached.drop_last()) == 0);
        assert(texts_given(reached) == 0);
        if part.len() == before.len() + 3 {
            assert(part.drop_last() =~= reached);
        } else {
            assert(part =~= reached);
        }
    }
}

pub proof fn lemma_texts_read(path: Seq<char>)
    ensures
        texts_given(nix::read_part(path)) == 1,
{
    lemma_texts_descent(path, nix::segments(path));
    let part = nix::read_part(path);
    assert(part.drop_last().drop_last() =~= nix::walk(Handle::Outputs, path));
    reveal_with_fuel(texts_given, 2);
    assert(texts_given(nix::walk(Handle::Outputs, path)) == 0);
    assert(texts_given(part.drop_last()) == 1);
}

pub proof fn lemma_texts_first(request: nix::RequestModel)
    ensures
        texts_given(nix::first_part(request)) == 1,
{
    assert(texts_given(nix::starting_part()) == 0) by {
        reveal_with_fuel(texts_given, 4);
    }
    assert(texts_given(nix::ttl_part(request.tarball_ttl)) == 0) by {
        reveal_with_fuel(texts_given, 2);
    }
    assert(texts_given(nix::opening_part()) == 1) by {
        lemma_texts_opening();
    }
    lemma_texts_settings(request.settings);
    let a = nix::starting_part() + nix::settings_part(request.settings);
    lemma_texts_concat(nix::starting_part(), nix::settings_part(request.settings));
    lemma_texts_concat(a, nix::ttl_part(request.tarball_ttl));
    lemma_texts_concat(a + nix::ttl_part(request.tarball_ttl), nix::opening_part());
}

proof fn lemma_texts_opening()
    ensures
        texts_given(nix::opening_part()) == 1,
{
    let part = nix::opening_part();
    reveal_with_fuel(texts_given, 12);
    assert(part.len() == 11);
}

proof fn lemma_texts_reading(attr: Seq<char>)
    ensures
        texts_given(nix::reading_part(attr)) == 6,
{
    let p1 = nix::read_part(attr + ".config.system.build.image.drvPath"@);
    let p2 = nix::read_part(attr + ".config.system.build.image.outPath"@);
    let p3 = nix::read_part(attr + ".config.image.fileName"@);
    let p4 = nix::read_part(attr + ".config.system.build.toplevel.outPath"@);
    let p5 = nix::read_part(attr + ".config.system.build.closureInfo.drvPath"@);
    let p6 = nix::read_part(attr + ".config.system.build.closureInfo.outPath"@);
    lemma_texts_read(attr + ".config.system.build.image.drvPath"@);
    lemma_texts_read(attr + ".config.system.build.image.outPath"@);
    lemma_texts_read(attr + ".config.image.fileName"@);
    lemma_texts_read(attr + ".config.system.build.toplevel.outPath"@);
    lemma_texts_read(attr + ".config.system.build.closureInfo.drvPath"@);
    lemma_texts_read(attr + ".config.system.build.closureInfo.outPath"@);
    lemma_texts_concat(p1, p2);
    lemma_texts_concat(p1 + p2, p3);
    lemma_texts_concat(p1 + p2 + p3, p4);
    lemma_texts_concat(p1 + p2 + p3 + p4, p5);
    lemma_texts_concat(p1 + p2 + p3 + p4 + p5, p6);
}

proof fn lemma_texts_third(request: nix::RequestModel, fragment: Seq<char>)
    ensures
        texts_given(nix::third_part(request, fragment)) == 6,
{
    let attr = nix::attr_path(fragment);
    assert(texts_given(nix::flags_part()) == 0) by {
        reveal_with_fuel(texts_given, 3);
    }
    assert(texts_given(nix::locking_part()) == 0) by {
        reveal_with_fuel(texts_given, 4);
    }
    lemma_texts_overrides(request.overrides);
    lemma_texts_reading(attr);
    let b = nix::flags_part() + nix::overrides_part(request.overrides);
    lemma_texts_concat(nix::flags_part(), nix::overrides_part(request.overrides));
    lemma_texts_concat(b, nix::locking_part());
    lemma_texts_concat(b + nix::locking_part(), nix::reading_part(attr));
}

proof fn lemma_texts_parts(request: nix::RequestModel, read: Seq<Seq<char>>)
    ensures
        texts_given(nix::first_part(request)) == 1,
        read.len() >= 1 && !path::has_zero(request.flake_ref) ==> texts_given(
            nix::second_part(request, read[0]),
        ) == 1,
        read.len() >= 2 ==> texts_given(nix::third_part(request, read[1])) == 6,
        read.len() >= 8 ==> texts_given(nix::fourth_part(read[2], read[6])) == 0,
{
    lemma_texts_first(request);
    if read.len() >= 1 && !path::has_zero(request.flake_ref) {
        assert(texts_given(nix::second_part(request, read[0])) == 1) by {
            reveal_with_fuel(texts_given, 3);
        }
    }
    if read.len() >= 2 {
        lemma_texts_third(request, read[1]);
    }
    if read.len() >= 8 {
        let image = nix::realise_part("realise image drv"@, read[2]);
        let closure = nix::realise_part("realise closureInfo drv"@, read[6]);
        assert(texts_given(image) == 0 && texts_given(closure) == 0) by {
            reveal_with_fuel(texts_given, 4);
        }
        lemma_texts_concat(image, closure);
    }
}

/// A script that has been gone through to its end has given all the texts.
pub proof fn lemma_all_texts_read(request: nix::RequestModel, read: Seq<Seq<char>>)
    requires
        read.len() == texts_given(nix::script_so_far(request, read)),
        forall|i: int|
            0 <= i < nix::script_so_far(request, read).len() ==> !((
            #[trigger] nix::script_so_far(request, read)[i]).op is Refuse),
    ensures
        read.len() == 8,
{
    reveal(nix::script_so_far);
    let none = Seq::<Call<Seq<char>>>::empty();
    let p1 = nix::first_part(request);
    let p2 = if read.len() >= 1 {
        nix::second_part(request, read[0])
    } else {
        none
    };
    let p3 = if read.len() >= 2 {
        nix::third_part(request, read[1])
    } else {
        none
    };
    let p4 = if read.len() >= 8 {
        nix::fourth_part(read[2], read[6])
    } else {
        none
    };
    let whole = nix::script_so_far(request, read);
    assert(whole =~= p1 + p2 + p3 + p4);
    if read.len() >= 1 {
        assert(whole[(p1.len() + 1) as int] == p2[1]);
    }
    lemma_texts_parts(request, read);
    lemma_texts_concat(p1, p2);
    lemma_texts_concat(p1 + p2, p3);
    lemma_texts_concat(p1 + p2 + p3, p4);
}

/// A later state of the script starts with the earlier one.
pub proof fn lemma_script_grows(
    request: nix::RequestModel,
    read: Seq<Seq<char>>,
    more: Seq<Seq<char>>,
)
    requires
        more == read || more == read.push(more.last()),
    ensures
        nix::script_so_far(request, read).len() <= nix::script_so_far(request, more).len(),
        nix::script_so_far(request, more).take(nix::script_so_far(request, read).len() as int)
            == nix::script_so_far(request, read),
{
    reveal(nix::script_so_far);
    let a = nix::script_so_far(request, read);
    let b = nix::script_so_far(request, more);
    assert(b.take(a.len() as int) =~= a);
}

/// A setting that the library does not know is skipped: it is worth a warning, and never an error.
pub proof fn law_unknown_settings_are_skipped(
    setting: (Seq<char>, Seq<char>),
    reply: ReplyModel,
)
    requires
        !path::has_zero(setting.0),
        !path::has_zero(setting.1),
    ensures
        failure(nix::setting_call(setting).check, reply) is None,
        warning(nix::setting_call(setting).check, reply) is Some <==> status_error(
            reply.status,
        ) is Some,
{
}

/// How long a fetched archive stays fresh was asked for by the user: if the library does not take it,
/// the realisation fails.
pub proof fn law_tarball_ttl_is_fatal(seconds: u32, reply: ReplyModel)
    ensures
        nix::ttl_part(Some(seconds)).len() == 1,
        failure(nix::ttl_part(Some(seconds))[0].check, reply) is Some <==> status_error(
            reply.status,
        ) is Some,
{
}

/// No more texts are read than are needed.
#[verifier::rlimit(40)]
pub proof fn lemma_no_more_texts(r: Realisation)
    requires
        r.wf(),
    ensures
        r.texts().len() <= 8,
{
    let request = r.request@;
    let read = r.texts();
    reveal(nix::script_so_far);
    let none = Seq::<Call<Seq<char>>>::empty();
    let p1 = nix::first_part(request);
    let p2 = if read.len() >= 1 {
        nix::second_part(request, read[0])
    } else {
        none
    };
    let p3 = if read.len() >= 2 {
        nix::third_part(request, read[1])
    } else {
        none
    };
    let p4 = if read.len() >= 8 {
        nix::fourth_part(read[2], read[6])
    } else {
        none
    };
    let made = r.script().take(r.next as int);
    let rest = r.script().skip(r.next as int);
    assert(r.script() =~= p1 + p2 + p3 + p4);
    assert(r.script() =~= made + rest);
    lemma_texts_concat(made, rest);
    lemma_texts_parts(request, read);
    assert(read.len() >= 1 ==> texts_given(p2) <= 1) by {
        reveal_with_fuel(texts_given, 3);
    }
    lemma_texts_concat(p1, p2);
    lemma_texts_concat(p1 + p2, p3);
    lemma_texts_concat(p1 + p2 + p3, p4);
}

/// Which replies are failures: a status other than zero, an object that is missing where one is to be
/// given, and a text that is not UTF-8 where one is read.  A call whose text is read is held to have failed
/// by its status only where it said so itself.
pub proof fn law_failed_calls_are_noticed(check: Check<Seq<char>>, reply: ReplyModel)
    ensures
        ({
            let reported = reply.status.code != 0;
            let is_text = vstd::utf8::valid_utf8(reply.text);
            failure(check, reply) is Some <==> match check {
                Check::Never => false,
                Check::Tolerated { what } => false,
                Check::Null { null } => reply.null,
                Check::Status { what } => reported,
                Check::StatusOrNull { what, null } => reported || reply.null,
                Check::Directory => reply.host_error is Some || !is_text,
                Check::Text { what } => (reply.rc != 0 && reported) || !is_text,
                Check::Reference { what, null, fragment } => reported || reply.null || !is_text,
            }
        }),
        warning(check, reply) is Some <==> check is Tolerated && reply.status.code != 0,
{
}

/// What the library says of an error is told to its last character, and so is where it happened: the error
/// starts with the circumstance and ends in the library's message.
pub proof fn law_messages_of_the_library_are_told(
    check: Check<Seq<char>>,
    reply: ReplyModel,
    what: Seq<char>,
    message: Seq<u8>,
)
    requires
        reply.status.code != 0,
        reply.status.message == Some(message),
        match check {
            Check::Status { what: w } => w == what,
            Check::StatusOrNull { what: w, null } => w == what,
            Check::Tolerated { what: w } => w == what,
            Check::Text { what: w } => w == what && reply.rc != 0,
            Check::Reference { what: w, null, fragment } => w == what,
            _ => false,
        },
    ensures
        ({
            let e = if check is Tolerated {
                warning(check, reply)->0
            } else {
                failure(check, reply)->0
            };
            let shown = path::utf8_lossy(message);
            &&& e.len() >= what.len() + shown.len()
            &&& e.take(what.len() as int) == what
            &&& e.skip(e.len() - shown.len()) == shown
        }),
{
    let shown = path::utf8_lossy(message);
    let told = "nix error "@ + text::decimal_int(reply.status.code) + ": "@ + shown;
    error::law_causes_are_told_whole(what, told);
    let e = error::within(what, told);
    assert(e.skip(e.len() - shown.len()) =~= shown) by {
        assert(told.skip(told.len() - shown.len()) =~= shown);
        assert(e.skip(e.len() - shown.len()) =~= told.skip(told.len() - shown.len()));
    }
}

/// The library reported an error exactly if the code of its status is not zero; the code is told, in
/// decimal, whether or not there is a message.
pub proof fn law_codes_of_the_library_are_told(status: StatusModel)
    ensures
        status_error(status) is Some <==> status.code != 0,
        status_error(status) matches Some(e) ==> {
            let n = text::decimal_int(status.code).len() as int;
            &&& e.take(10) == "nix error "@
            &&& e.subrange(10, 10 + n) == text::decimal_int(status.code)
            &&& status.message is None ==> e.skip(12 + n) == "(no message)"@
        },
{
    reveal_strlit("nix error ");
    reveal_strlit(": ");
    if let Some(e) = status_error(status) {
        let n = text::decimal_int(status.code).len() as int;
        assert(e.take(10) =~= "nix error "@);
        assert(e.subrange(10, 10 + n) =~= text::decimal_int(status.code));
        if status.message is None {
            assert(e.skip(12 + n) =~= "(no message)"@);
        }
    }
}

} // verus!
