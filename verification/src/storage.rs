//! The storage codec: the stored text form of a task list, its decoder, and
//! the proof that decoding restores what was encoded.
//!
//! One task is stored as one record: a single completion character (`x` for
//! complete, a space for incomplete), the name with every character preceded
//! by a backslash, and a terminating newline.  Prefixing every name character
//! makes the record unambiguous whatever the name holds, and any text that
//! does not have this exact shape is rejected as corrupt.

use crate::list::{TaskSpec, TodoError, TodoList};
use crate::strutil::push_char;
use vstd::prelude::*;
use vstd::string::StrSliceExecFns;

verus! {

/// The stored completion character of a flag.
pub open spec fn marker_char(completed: bool) -> char {
    if completed {
        'x'
    } else {
        ' '
    }
}

/// A name in stored form: every character preceded by a backslash.
pub open spec fn quote_name(name: Seq<char>) -> Seq<char>
    decreases name.len(),
{
    if name.len() == 0 {
        Seq::empty()
    } else {
        seq!['\\', name[0]] + quote_name(name.drop_first())
    }
}

/// One task in stored form: completion character, quoted name, newline.
pub open spec fn encode_task(t: TaskSpec) -> Seq<char> {
    seq![marker_char(t.completed)] + quote_name(t.name) + seq!['\n']
}

/// A task sequence in stored form: the records in order.
pub open spec fn encode_tasks(ts: Seq<TaskSpec>) -> Seq<char>
    decreases ts.len(),
{
    if ts.len() == 0 {
        Seq::empty()
    } else {
        encode_task(ts.first()) + encode_tasks(ts.drop_first())
    }
}

/// Reads one quoted name from the front of `s`: the name and the number of
/// characters consumed, the terminating newline included; `None` if the text
/// does not start with a well-formed quoted name.
pub open spec fn decode_name(s: Seq<char>) -> Option<(Seq<char>, nat)>
    decreases s.len(),
{
    if s.len() == 0 {
        None
    } else if s[0] == '\n' {
        Some((Seq::empty(), 1nat))
    } else if s[0] == '\\' && s.len() >= 2 {
        match decode_name(s.skip(2)) {
            Some(p) => Some((seq![s[1]] + p.0, (p.1 + 2) as nat)),
            None => None,
        }
    } else {
        None
    }
}

/// Reads one record from the front of `s`: the task and the number of
/// characters consumed; `None` if the text does not start with a record.
pub open spec fn decode_task(s: Seq<char>) -> Option<(TaskSpec, nat)> {
    if s.len() > 0 && (s[0] == ' ' || s[0] == 'x') {
        match decode_name(s.skip(1)) {
            Some(p) => Some((TaskSpec { name: p.0, completed: s[0] == 'x' }, (p.1 + 1) as nat)),
            None => None,
        }
    } else {
        None
    }
}

/// Decodes a whole stored text: the task sequence if the text is a
/// concatenation of records and nothing else, `None` otherwise.
pub open spec fn decode_tasks(s: Seq<char>) -> Option<Seq<TaskSpec>>
    decreases s.len(),
{
    if s.len() == 0 {
        Some(Seq::empty())
    } else {
        match decode_task(s) {
            Some(p) => if 1 <= p.1 <= s.len() {
                match decode_tasks(s.skip(p.1 as int)) {
                    Some(ts) => Some(seq![p.0] + ts),
                    None => None,
                }
            } else {
                None
            },
            None => None,
        }
    }
}

proof fn lemma_quote_name_len(name: Seq<char>)
    ensures
        quote_name(name).len() == 2 * name.len(),
    decreases name.len(),
{
    if name.len() > 0 {
        lemma_quote_name_len(name.drop_first());
    }
}

proof fn lemma_decode_name_quote(name: Seq<char>, rest: Seq<char>)
    ensures
        decode_name(quote_name(name) + seq!['\n'] + rest) == Some(
            (name, (2 * name.len() + 1) as nat),
        ),
    decreases name.len(),
{
    let s = quote_name(name) + seq!['\n'] + rest;
    lemma_quote_name_len(name);
    if name.len() == 0 {
        assert(s[0] == '\n');
        assert(name =~= Seq::<char>::empty());
    } else {
        assert(s[0] == '\\');
        assert(s[1] == name[0]);
        assert(s.skip(2) =~= quote_name(name.drop_first()) + seq!['\n'] + rest);
        lemma_decode_name_quote(name.drop_first(), rest);
        assert(seq![s[1]] + name.drop_first() =~= name);
    }
}

proof fn lemma_decode_task_encode(t: TaskSpec, rest: Seq<char>)
    ensures
        decode_task(encode_task(t) + rest) == Some((t, (2 * t.name.len() + 2) as nat)),
        encode_task(t).len() == 2 * t.name.len() + 2,
{
    let s = encode_task(t) + rest;
    lemma_quote_name_len(t.name);
    assert(s[0] == marker_char(t.completed));
    assert(s[0] == ' ' || s[0] == 'x');
    assert((s[0] == 'x') == t.completed);
    assert(s.skip(1) =~= quote_name(t.name) + seq!['\n'] + rest);
    lemma_decode_name_quote(t.name, rest);
    assert((TaskSpec { name: t.name, completed: s[0] == 'x' }) =~= t);
}

/// Law: decoding what was encoded restores the identical ordered sequence of
/// (name, completed) pairs.  `TodoList::serialize` produces `encode_tasks` of
/// the list and `TodoList::load_from` yields `decode_tasks` of the text, so a
/// save followed by a load reproduces the list exactly.
pub proof fn lemma_store_round_trip(ts: Seq<TaskSpec>)
    ensures
        decode_tasks(encode_tasks(ts)) == Some(ts),
    decreases ts.len(),
{
    if ts.len() > 0 {
        let s = encode_tasks(ts);
        let tail = encode_tasks(ts.drop_first());
        assert(s == encode_task(ts.first()) + tail);
        lemma_decode_task_encode(ts.first(), tail);
        let consumed = 2 * ts.first().name.len() + 2;
        assert(s.len() == consumed + tail.len());
        assert(s.skip(consumed as int) =~= tail);
        lemma_store_round_trip(ts.drop_first());
        assert(seq![ts.first()] + ts.drop_first() =~= ts);
    }
}

impl TodoList {
    /// Serializes the list to its stored text form.
    pub fn serialize(&self) -> (r: String)
        ensures
            r@ == encode_tasks(self@),
    {
        let mut out = String::new();
        let n = self.len();
        let mut i: usize = 0;
        proof {
            assert(self@.skip(0) =~= self@);
            assert(out@ + encode_tasks(self@) =~= encode_tasks(self@));
        }
        while i < n
            invariant
                i <= n,
                n == self@.len(),
                encode_tasks(self@) == out@ + encode_tasks(self@.skip(i as int)),
            decreases n - i,
        {
            let ghost pre = out@;
            let ghost t = self@[i as int];
            let marker = if self.completed_at(i) {
                'x'
            } else {
                ' '
            };
            push_char(&mut out, marker);
            let name = self.name_at(i);
            let ghost nm = name@;
            let m = name.as_str().unicode_len();
            let mut k: usize = 0;
            proof {
                assert(nm.skip(0) =~= nm);
                assert(out@ + quote_name(nm) =~= pre + seq![marker_char(t.completed)] + quote_name(
                    nm,
                ));
            }
            while k < m
                invariant
                    k <= m,
                    m == nm.len(),
                    nm == name@,
                    out@ + quote_name(nm.skip(k as int)) == pre + seq![marker_char(t.completed)]
                        + quote_name(nm),
                decreases m - k,
            {
                let c = name.as_str().get_char(k);
                push_char(&mut out, '\\');
                push_char(&mut out, c);
                proof {
                    assert(nm.skip(k as int).drop_first() =~= nm.skip(k + 1));
                    assert(quote_name(nm.skip(k as int)) == seq!['\\', c] + quote_name(
                        nm.skip(k + 1),
                    ));
                    assert(out@ + quote_name(nm.skip(k + 1)) =~= pre + seq![
                        marker_char(t.completed),
                    ] + quote_name(nm));
                }
                k += 1;
            }
            push_char(&mut out, '\n');
            proof {
                assert(nm.skip(m as int) =~= Seq::<char>::empty());
                assert(nm == t.name);
                assert(out@ =~= pre + encode_task(t));
                assert(self@.skip(i as int).drop_first() =~= self@.skip(i + 1));
                assert(self@.skip(i as int).first() == t);
                assert(encode_tasks(self@.skip(i as int)) == encode_task(t) + encode_tasks(
                    self@.skip(i + 1),
                ));
                assert(out@ + encode_tasks(self@.skip(i + 1)) =~= pre + encode_tasks(
                    self@.skip(i as int),
                ));
            }
            i += 1;
        }
        proof {
            assert(self@.skip(n as int) =~= Seq::<TaskSpec>::empty());
            assert(out@ =~= encode_tasks(self@));
        }
        out
    }

    /// Decodes a stored text into a list; `None` if the text is not a
    /// well-formed stored form.
    pub fn deserialize(s: &str) -> (r: Option<TodoList>)
        ensures
            match r {
                Some(l) => decode_tasks(s@) == Some(l@),
                None => decode_tasks(s@) is None,
            },
    {
        let n = s.unicode_len();
        let mut out = TodoList::new();
        let mut i: usize = 0;
        proof {
            assert(s@.skip(0) =~= s@);
            match decode_tasks(s@) {
                Some(ts) => {
                    assert(out@ + ts =~= ts);
                },
                None => {},
            }
        }
        while i < n
            invariant
                i <= n,
                n == s@.len(),
                match decode_tasks(s@.skip(i as int)) {
                    Some(ts) => decode_tasks(s@) == Some(out@ + ts),
                    None => decode_tasks(s@) is None,
                },
            decreases n - i,
        {
            let ghost suffix = s@.skip(i as int);
            let marker = s.get_char(i);
            proof {
                assert(suffix[0] == s@[i as int]);
            }
            if !(marker == ' ' || marker == 'x') {
                proof {
                    assert(decode_task(suffix) is None);
                }
                return None;
            }
            match Self::parse_name(s, i + 1, n) {
                None => {
                    proof {
                        assert(suffix.skip(1) =~= s@.skip(i + 1));
                        assert(decode_task(suffix) is None);
                    }
                    return None;
                },
                Some((name, end)) => {
                    let ghost t = TaskSpec { name: name@, completed: marker == 'x' };
                    proof {
                        assert(suffix.skip(1) =~= s@.skip(i + 1));
                        assert(decode_task(suffix) == Some((t, (end - i) as nat)));
                        assert(suffix.skip(end - i) =~= s@.skip(end as int));
                    }
                    let ghost before = out@;
                    let idx = out.len();
                    out.add_task(name);
                    if marker == 'x' {
                        let marked = out.mark_completed(idx);
                        proof {
                            assert(marked == Ok::<(), TodoError>(()));
                            assert(out@ =~= before.push(t));
                        }
                    } else {
                        proof {
                            assert(out@ =~= before.push(t));
                        }
                    }
                    proof {
                        match decode_tasks(s@.skip(end as int)) {
                            Some(ts) => {
                                assert(decode_tasks(suffix) == Some(seq![t] + ts));
                                assert(before + (seq![t] + ts) =~= out@ + ts);
                            },
                            None => {
                                assert(decode_tasks(suffix) is None);
                            },
                        }
                    }
                    i = end;
                },
            }
        }
        proof {
            assert(s@.skip(i as int) =~= Seq::<char>::empty());
            assert(out@ + Seq::<TaskSpec>::empty() =~= out@);
        }
        Some(out)
    }

    /// Reads one quoted name starting at `start`; on success returns the name
    /// and the position just past its terminating newline.
    fn parse_name(s: &str, start: usize, n: usize) -> (r: Option<(String, usize)>)
        requires
            n == s@.len(),
            start <= n,
        ensures
            match r {
                Some(p) => start < p.1 <= n && decode_name(s@.skip(start as int)) == Some(
                    (p.0@, (p.1 - start) as nat),
                ),
                None => decode_name(s@.skip(start as int)) is None,
            },
    {
        let mut name = String::new();
        let mut j = start;
        proof {
            match decode_name(s@.skip(start as int)) {
                Some(p) => {
                    assert(name@ + p.0 =~= p.0);
                },
                None => {},
            }
        }
        while j < n
            invariant
                start <= j <= n,
                n == s@.len(),
                match decode_name(s@.skip(j as int)) {
                    Some(p) => decode_name(s@.skip(start as int)) == Some(
                        (name@ + p.0, ((j - start) + p.1) as nat),
                    ),
                    None => decode_name(s@.skip(start as int)) is None,
                },
            decreases n - j,
        {
            let ghost suffix = s@.skip(j as int);
            let c = s.get_char(j);
            proof {
                assert(suffix[0] == s@[j as int]);
            }
            if c == '\n' {
                proof {
                    assert(decode_name(suffix) == Some((Seq::<char>::empty(), 1nat)));
                    assert(name@ + Seq::<char>::empty() =~= name@);
                }
                return Some((name, j + 1));
            } else if c == '\\' {
                if j + 1 < n {
                    let ch = s.get_char(j + 1);
                    let ghost pre_name = name@;
                    push_char(&mut name, ch);
                    proof {
                        assert(suffix[1] == s@[j + 1]);
                        assert(suffix.skip(2) =~= s@.skip(j + 2));
                        match decode_name(s@.skip(j + 2)) {
                            Some(p) => {
                                assert(decode_name(suffix) == Some(
                                    (seq![ch] + p.0, (p.1 + 2) as nat),
                                ));
                                assert(pre_name + (seq![ch] + p.0) =~= name@ + p.0);
                            },
                            None => {
                                assert(decode_name(suffix) is None);
                            },
                        }
                    }
                    j += 2;
                } else {
                    proof {
                        assert(suffix.len() == 1);
                        assert(decode_name(suffix) is None);
                    }
                    return None;
                }
            } else {
                proof {
                    assert(decode_name(suffix) is None);
                }
                return None;
            }
        }
        proof {
            assert(s@.skip(j as int) =~= Seq::<char>::empty());
        }
        None
    }

    /// Reconstructs a list from what the storage location held: `None` when
    /// nothing could be read, the decoded tasks when the text is well formed,
    /// and the empty list when it is corrupt.  No error is raised to the
    /// caller in any case.
    pub fn load_from(data: Option<&str>) -> (r: TodoList)
        ensures
            match data {
                Some(s) => match decode_tasks(s@) {
                    Some(ts) => r@ == ts,
                    None => r@ == Seq::<TaskSpec>::empty(),
                },
                None => r@ == Seq::<TaskSpec>::empty(),
            },
    {
        match data {
            Some(s) => match Self::deserialize(s) {
                Some(l) => l,
                None => TodoList::new(),
            },
            None => TodoList::new(),
        }
    }
}

} // verus!
