use vstd::prelude::*;

verus! {

/// Size of the buffer that holds bytes read from the motor controller.
pub const LINE_BUFFER_SIZE: usize = 512;

/// Number of zero bytes the buffer holds before anything is read.
pub const LINE_BUFFER_INITIAL_FILL: usize = 128;

/// The newline byte that ends a line.
pub const NEWLINE: u8 = 10;

/// Whether `s` holds no newline byte.
pub open spec fn has_no_newline(s: Seq<u8>) -> bool {
    forall|i: int| 0 <= i < s.len() ==> s[i] != NEWLINE
}

/// The length of the longest prefix of `s` that ends in a newline
/// (zero when `s` holds no newline): the bytes that form complete lines.
pub open spec fn complete_lines_len(s: Seq<u8>) -> nat
    decreases s.len(),
{
    if s.len() == 0 {
        0
    } else if s.last() == NEWLINE {
        s.len()
    } else {
        complete_lines_len(s.drop_last())
    }
}

/// The complete lines that a buffer holding `held` hands out when `data`
/// arrives.
pub open spec fn lines_out(held: Seq<u8>, data: Seq<u8>) -> Seq<u8> {
    (held + data).take(complete_lines_len(held + data) as int)
}

/// What a buffer holding `held` keeps after `data` arrives: the bytes
/// after the last newline.
pub open spec fn kept(held: Seq<u8>, data: Seq<u8>) -> Seq<u8> {
    (held + data).skip(complete_lines_len(held + data) as int)
}

/// `complete_lines_len` is a length within `s`; the prefix it measures is
/// empty or ends in a newline, and no newline follows it.
pub proof fn lemma_complete_lines_len(s: Seq<u8>)
    ensures
        complete_lines_len(s) <= s.len(),
        complete_lines_len(s) > 0 ==> s[complete_lines_len(s) - 1] == NEWLINE,
        has_no_newline(s.skip(complete_lines_len(s) as int)),
    decreases s.len(),
{
    if s.len() > 0 && s.last() != NEWLINE {
        lemma_complete_lines_len(s.drop_last());
        let k = complete_lines_len(s.drop_last());
        assert forall|i: int| 0 <= i < s.skip(k as int).len() implies s.skip(k as int)[i] != NEWLINE by {
            if k + i < s.len() - 1 {
                assert(s.skip(k as int)[i] == s.drop_last().skip(k as int)[i]);
            }
        }
    }
}

/// A text without newlines has no complete line.
pub proof fn lemma_no_newline_no_lines(s: Seq<u8>)
    requires
        has_no_newline(s),
    ensures
        complete_lines_len(s) == 0,
    decreases s.len(),
{
    if s.len() > 0 {
        assert(s.drop_last().len() == s.len() - 1);
        assert(has_no_newline(s.drop_last())) by {
            assert forall|i: int| 0 <= i < s.drop_last().len() implies s.drop_last()[i] != NEWLINE by {
                assert(s.drop_last()[i] == s[i]);
            }
        }
        lemma_no_newline_no_lines(s.drop_last());
    }
}

/// Bytes are handed out in the order they arrived, none lost and none
/// twice: across two reads, the lines handed out followed by what is kept
/// are what was held followed by both reads.
pub proof fn law_receive_twice(held: Seq<u8>, first: Seq<u8>, second: Seq<u8>)
    ensures
        lines_out(held, first) + lines_out(kept(held, first), second) + kept(kept(held, first), second)
            == held + first + second,
{
    lemma_complete_lines_len(held + first);
    lemma_complete_lines_len(kept(held, first) + second);
    let all1 = held + first;
    let k1 = complete_lines_len(all1) as int;
    let all2 = kept(held, first) + second;
    let k2 = complete_lines_len(all2) as int;
    assert(all1.take(k1) + all1.skip(k1) =~= all1);
    assert(all2.take(k2) + all2.skip(k2) =~= all2);
    assert(lines_out(held, first) + lines_out(kept(held, first), second) + kept(kept(held, first), second)
        =~= held + first + second);
}

/// Collects the bytes that the motor controller sends and hands them out
/// a complete line at a time. Bytes of an unfinished line are kept until its
/// newline arrives.
pub struct LineBuffer {
    buf: [u8; 512],
    used: usize,
}

impl View for LineBuffer {
    type V = Seq<u8>;

    /// The bytes received and not yet handed out.
    closed spec fn view(&self) -> Seq<u8> {
        self.buf@.take(self.used as int)
    }
}

impl LineBuffer {
    #[verifier::type_invariant]
    spec fn inv(self) -> bool {
        &&& self.used <= LINE_BUFFER_SIZE
        &&& has_no_newline(self.buf@.take(self.used as int))
    }

    /// The buffer as it stands before the first read: it holds
    /// `LINE_BUFFER_INITIAL_FILL` zero bytes.
    pub fn new() -> (b: Self)
        ensures
            b@ == Seq::new(LINE_BUFFER_INITIAL_FILL as nat, |i: int| 0u8),
    {
        let buf = [0u8; 512];
        let b = LineBuffer { buf, used: LINE_BUFFER_INITIAL_FILL };
        assert(b@ =~= Seq::new(LINE_BUFFER_INITIAL_FILL as nat, |i: int| 0u8));
        b
    }

    /// How many more bytes the buffer can take in.
    pub fn free_space(&self) -> (n: usize)
        ensures
            n == LINE_BUFFER_SIZE - self@.len(),
    {
        proof {
            use_type_invariant(self);
        }
        LINE_BUFFER_SIZE - self.used
    }

    /// The bytes received and not yet handed out.
    pub fn pending(&self) -> (bytes: Vec<u8>)
        ensures
            bytes@ == self@,
            self@.len() <= LINE_BUFFER_SIZE,
            has_no_newline(self@),
    {
        proof {
            use_type_invariant(self);
        }
        let mut bytes: Vec<u8> = Vec::new();
        let mut i: usize = 0;
        while i < self.used
            invariant
                self.used <= LINE_BUFFER_SIZE,
                i <= self.used,
                bytes@ == self.buf@.take(i as int),
            decreases self.used - i,
        {
            bytes.push(self.buf[i]);
            i = i + 1;
            assert(bytes@ =~= self.buf@.take(i as int));
        }
        bytes
    }

    /// Takes in `data`, just read from the motor controller, and hands out
    /// every complete line now held, oldest first, each with its newline.
    /// What follows the last newline stays for the next read.
    pub fn receive(&mut self, data: &[u8]) -> (lines: Vec<u8>)
        requires
            data@.len() <= LINE_BUFFER_SIZE - old(self)@.len(),
        ensures
            lines@ == lines_out(old(self)@, data@),
            final(self)@ == kept(old(self)@, data@),
            lines@ + final(self)@ == old(self)@ + data@,
            lines@.len() > 0 ==> lines@.last() == NEWLINE,
            has_no_newline(final(self)@),
    {
        proof {
            use_type_invariant(&*self);
        }
        let ghost all = self@ + data@;
        let mut buf = self.buf;
        let old_used = self.used;
        let n = data.len();
        // append the new bytes behind the ones already held
        let mut i: usize = 0;
        while i < n
            invariant
                n == data@.len(),
                old_used + n <= LINE_BUFFER_SIZE,
                i <= n,
                buf@.len() == LINE_BUFFER_SIZE,
                buf@.take(old_used as int) == self.buf@.take(old_used as int),
                forall|j: int| 0 <= j < i ==> buf@[old_used + j] == data@[j],
            decreases n - i,
        {
            buf[old_used + i] = data[i];
            i = i + 1;
        }
        let used = old_used + n;
        assert(buf@.take(used as int) =~= all);
        proof {
            lemma_no_newline_no_lines(all.take(old_used as int));
            assert(all.take(old_used as int) =~= self@);
        }
        // hand out every complete line
        let mut lines: Vec<u8> = Vec::new();
        let mut consumed: usize = 0;
        let mut i: usize = old_used;
        while i < used
            invariant
                used <= LINE_BUFFER_SIZE,
                old_used <= i <= used,
                buf@.len() == LINE_BUFFER_SIZE,
                buf@.take(used as int) == all,
                consumed == complete_lines_len(all.take(i as int)),
                consumed <= i,
                lines@ == all.take(consumed as int),
            decreases used - i,
        {
            assert(all.take(i + 1).drop_last() =~= all.take(i as int));
            if buf[i] == NEWLINE {
                let mut j: usize = consumed;
                while j < i + 1
                    invariant
                        used <= LINE_BUFFER_SIZE,
                        consumed <= j <= i + 1,
                        i < used,
                        buf@.len() == LINE_BUFFER_SIZE,
                        buf@.take(used as int) == all,
                        lines@ == all.take(j as int),
                    decreases i + 1 - j,
                {
                    lines.push(buf[j]);
                    j = j + 1;
                    assert(lines@ =~= all.take(j as int));
                }
                consumed = i + 1;
            }
            i = i + 1;
        }
        assert(all.take(used as int) =~= all);
        // move what is left of an unfinished line to the front
        let rest = used - consumed;
        let ghost before = buf@;
        let mut i: usize = 0;
        while i < rest
            invariant
                rest == used - consumed,
                consumed <= used <= LINE_BUFFER_SIZE,
                i <= rest,
                buf@.len() == LINE_BUFFER_SIZE,
                before.len() == LINE_BUFFER_SIZE,
                forall|j: int| 0 <= j < i ==> buf@[j] == before[consumed + j],
                forall|j: int| i <= j < LINE_BUFFER_SIZE ==> buf@[j] == before[j],
            decreases rest - i,
        {
            let b = buf[i + consumed];
            buf[i] = b;
            i = i + 1;
        }
        proof {
            lemma_complete_lines_len(all);
            assert(buf@.take(rest as int) =~= all.skip(consumed as int));
            assert(lines@ + all.skip(consumed as int) =~= all);
        }
        *self = LineBuffer { buf, used: rest };
        lines
    }
}

} // verus!
