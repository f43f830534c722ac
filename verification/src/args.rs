//! Command-line argument classification and the run configuration built from
//! it. The library classifies an already-collected token list; collecting the
//! process's arguments is its caller's business.

use vstd::prelude::*;

verus! {

/// One classified command-line token: a scan request (with an optional root
/// directory), a comparison request (with its two snapshot locations), an
/// output-file selection, a help request, or an unknown token.
#[derive(Debug)]
pub enum ArgType {
    Scan(Option<String>),
    Compare((Option<String>, Option<String>)),
    Output(Option<String>),
    Help,
    Error(String),
}

/// Whether a token looks like an option (its first character is a dash).
pub open spec fn starts_with_dash(t: Seq<char>) -> bool {
    t.len() > 0 && t[0] == '-'
}

/// The classification of the token list from position `i` on. An option
/// letter is the token's second character; anything else is an unknown
/// token. `-s` takes the following token as its directory unless that token
/// is itself an option; `-c` takes the following two tokens, either of which
/// may be missing at the list's end; `-o` takes one.
pub open spec fn spec_parse_args(tokens: Seq<String>, i: int) -> Seq<ArgType>
    decreases tokens.len() - i,
{
    if i < 0 || i >= tokens.len() {
        Seq::empty()
    } else {
        let t = tokens[i];
        if !starts_with_dash(t@) || t@.len() < 2 {
            seq![ArgType::Error(t)] + spec_parse_args(tokens, i + 1)
        } else if t@[1] == 's' {
            if i + 1 < tokens.len() && !starts_with_dash(tokens[i + 1]@) {
                seq![ArgType::Scan(Some(tokens[i + 1]))] + spec_parse_args(tokens, i + 2)
            } else {
                seq![ArgType::Scan(None)] + spec_parse_args(tokens, i + 1)
            }
        } else if t@[1] == 'c' {
            let first = if i + 1 < tokens.len() {
                Some(tokens[i + 1])
            } else {
                None
            };
            let second = if i + 2 < tokens.len() {
                Some(tokens[i + 2])
            } else {
                None
            };
            let n = if i + 3 <= tokens.len() {
                i + 3
            } else {
                tokens.len() as int
            };
            seq![ArgType::Compare((first, second))] + spec_parse_args(tokens, n)
        } else if t@[1] == 'o' {
            let val = if i + 1 < tokens.len() {
                Some(tokens[i + 1])
            } else {
                None
            };
            let n = if i + 2 <= tokens.len() {
                i + 2
            } else {
                tokens.len() as int
            };
            seq![ArgType::Output(val)] + spec_parse_args(tokens, n)
        } else if t@[1] == 'h' {
            seq![ArgType::Help] + spec_parse_args(tokens, i + 1)
        } else {
            seq![ArgType::Error(t)] + spec_parse_args(tokens, i + 1)
        }
    }
}

/// The message reported for one unknown token.
pub open spec fn spec_error_msg(t: Seq<char>) -> Seq<char> {
    "Unknown argument: \""@ + t + "\"."@
}

/// The unknown-token messages of a classification, in order.
pub open spec fn spec_error_msgs(parsed: Seq<ArgType>) -> Seq<Seq<char>>
    decreases parsed.len(),
{
    if parsed.len() == 0 {
        Seq::empty()
    } else {
        let rest = spec_error_msgs(parsed.drop_first());
        match parsed.first() {
            ArgType::Error(t) => seq![spec_error_msg(t@)] + rest,
            _ => rest,
        }
    }
}

/// A classification with its unknown tokens removed, in order.
pub open spec fn spec_remove_errors(parsed: Seq<ArgType>) -> Seq<ArgType>
    decreases parsed.len(),
{
    if parsed.len() == 0 {
        Seq::empty()
    } else {
        let rest = spec_remove_errors(parsed.drop_first());
        match parsed.first() {
            ArgType::Error(t) => rest,
            a => seq![a] + rest,
        }
    }
}

impl ArgType {
    /// Whether the token at `i`, if any, looks like an option.
    fn next_is_arg(tokens: &Vec<String>, i: usize) -> (r: bool)
        ensures
            r == (i < tokens@.len() && starts_with_dash(tokens@[i as int]@)),
    {
        if i < tokens.len() {
            let t = tokens[i].as_str();
            t.unicode_len() > 0 && t.get_char(0) == '-'
        } else {
            false
        }
    }

    /// Classifies the token at `i` and says where the next one starts (an
    /// option may consume the tokens that follow it as its values).
    fn arg_type(tokens: &Vec<String>, i: usize) -> (r: (ArgType, usize))
        requires
            i < tokens@.len(),
        ensures
            i < r.1 <= tokens@.len(),
            spec_parse_args(tokens@, i as int) == seq![r.0] + spec_parse_args(
                tokens@,
                r.1 as int,
            ),
    {
        let n_tokens = tokens.len();
        let t = tokens[i].as_str();
        let tlen = t.unicode_len();
        if tlen == 0 || t.get_char(0) != '-' || tlen < 2 {
            return (ArgType::Error(tokens[i].clone()), i + 1);
        }
        let letter = t.get_char(1);
        if letter == 's' {
            if ArgType::next_is_arg(tokens, i + 1) {
                (ArgType::Scan(None), i + 1)
            } else if i + 1 < tokens.len() {
                (ArgType::Scan(Some(tokens[i + 1].clone())), i + 2)
            } else {
                (ArgType::Scan(None), i + 1)
            }
        } else if letter == 'c' {
            let first = if n_tokens - i > 1 {
                Some(tokens[i + 1].clone())
            } else {
                None
            };
            let second = if n_tokens - i > 2 {
                Some(tokens[i + 2].clone())
            } else {
                None
            };
            let n = if n_tokens - i >= 3 {
                i + 3
            } else {
                n_tokens
            };
            (ArgType::Compare((first, second)), n)
        } else if letter == 'o' {
            let val = if n_tokens - i > 1 {
                Some(tokens[i + 1].clone())
            } else {
                None
            };
            let n = if n_tokens - i >= 2 {
                i + 2
            } else {
                n_tokens
            };
            (ArgType::Output(val), n)
        } else if letter == 'h' {
            (ArgType::Help, i + 1)
        } else {
            (ArgType::Error(tokens[i].clone()), i + 1)
        }
    }

    /// Whether this classified token is an unknown one.
    pub fn is_err(&self) -> (r: bool)
        ensures
            r == (*self is Error),
    {
        if let ArgType::Error(_) = self {
            true
        } else {
            false
        }
    }

    /// Splits the unknown tokens out of a classification: they leave the
    /// list, and their messages come back, both in their original order.
    fn collect_errors(all: &mut Vec<ArgType>) -> (r: Vec<String>)
        ensures
            final(all)@ == spec_remove_errors(old(all)@),
            r.deep_view() == spec_error_msgs(old(all)@),
    {
        let ghost all0 = all@;
        let mut kept: Vec<ArgType> = Vec::new();
        let mut errors: Vec<String> = Vec::new();
        proof {
            assert(kept@ + spec_remove_errors(all@) =~= spec_remove_errors(all0));
            assert(errors.deep_view() + spec_error_msgs(all@) =~= spec_error_msgs(all0));
        }
        while all.len() > 0
            invariant
                spec_remove_errors(all0) == kept@ + spec_remove_errors(all@),
                spec_error_msgs(all0) == errors.deep_view() + spec_error_msgs(all@),
            decreases all@.len(),
        {
            let ghost pre = all@;
            let ghost keptpre = kept@;
            let ghost errorspre = errors.deep_view();
            let a = all.remove(0);
            proof {
                assert(all@ =~= pre.drop_first());
                assert(a == pre.first());
            }
            match a {
                ArgType::Error(e) => {
                    let mut m = String::from_str("Unknown argument: \"");
                    m.append(e.as_str());
                    m.append("\".");
                    let ghost mv = m@;
                    errors.push(m);
                    proof {
                        assert(errors.deep_view() =~= errorspre.push(mv));
                        assert(errorspre.push(mv) =~= errorspre + seq![mv]);
                        assert(errorspre + (seq![mv] + spec_error_msgs(all@)) =~= (errorspre + seq![
                            mv,
                        ]) + spec_error_msgs(all@));
                    }
                },
                other => {
                    kept.push(other);
                    proof {
                        assert(kept@ =~= keptpre.push(pre.first()));
                        assert(keptpre.push(pre.first()) =~= keptpre + seq![pre.first()]);
                        assert(keptpre + (seq![pre.first()] + spec_remove_errors(all@)) =~= (
                        keptpre + seq![pre.first()]) + spec_remove_errors(all@));
                    }
                },
            }
        }
        proof {
            assert(spec_remove_errors(all@) =~= Seq::<ArgType>::empty());
            assert(spec_error_msgs(all@) =~= Seq::<Seq<char>>::empty());
            assert(kept@ + Seq::<ArgType>::empty() =~= kept@);
            assert(errors.deep_view() + Seq::<Seq<char>>::empty() =~= errors.deep_view());
        }
        *all = kept;
        errors
    }

    /// Classifies a whole token list (the first token, the program's own
    /// name, plays no part). Unknown tokens fail the classification with
    /// their messages; an empty classification fails too.
    pub fn read_args(tokens: &Vec<String>) -> (r: Result<Vec<ArgType>, Vec<String>>)
        ensures
            ({
                let parsed = spec_parse_args(tokens@, 1);
                match r {
                    Ok(v) => spec_error_msgs(parsed).len() == 0 && v@ == spec_remove_errors(parsed)
                        && v@.len() > 0,
                    Err(msgs) => if spec_error_msgs(parsed).len() > 0 {
                        msgs.deep_view() == spec_error_msgs(parsed)
                    } else {
                        spec_remove_errors(parsed).len() == 0 && msgs.deep_view() == seq![
                            "No args given."@,
                        ]
                    },
                }
            }),
    {
        let ghost parsed = spec_parse_args(tokens@, 1);
        let mut arg_types: Vec<ArgType> = Vec::new();
        let mut i: usize = 1;
        proof {
            assert(arg_types@ + spec_parse_args(tokens@, 1) =~= parsed);
        }
        while i < tokens.len()
            invariant
                1 <= i,
                parsed == spec_parse_args(tokens@, 1),
                parsed == arg_types@ + spec_parse_args(tokens@, i as int),
            decreases tokens@.len() - i,
        {
            let ghost atpre = arg_types@;
            let (a, n) = ArgType::arg_type(tokens, i);
            let ghost av = a;
            arg_types.push(a);
            proof {
                assert(arg_types@ =~= atpre.push(av));
                assert(atpre.push(av) =~= atpre + seq![av]);
                assert(atpre + (seq![av] + spec_parse_args(tokens@, n as int)) =~= (atpre + seq![
                    av,
                ]) + spec_parse_args(tokens@, n as int));
            }
            i = n;
        }
        proof {
            assert(spec_parse_args(tokens@, i as int) =~= Seq::<ArgType>::empty());
            assert(arg_types@ + Seq::<ArgType>::empty() =~= arg_types@);
        }
        let mut errors = ArgType::collect_errors(&mut arg_types);
        if errors.len() > 0 {
            Err(errors)
        } else {
            if arg_types.len() == 0 {
                proof {
                    assert(spec_error_msgs(parsed).len() == 0);
                }
                errors.push(String::from_str("No args given."));
                proof {
                    assert(errors.deep_view() =~= seq!["No args given."@]);
                }
                Err(errors)
            } else {
                proof {
                    assert(spec_error_msgs(parsed).len() == 0);
                }
                Ok(arg_types)
            }
        }
    }
}

/// Whether a classified token selects an operation.
pub open spec fn is_run_arg(a: ArgType) -> bool {
    a is Scan || a is Compare || a is Help
}

/// The first operation-selecting entry at or after `i`, if any.
pub open spec fn spec_first_run_from(args: Seq<ArgType>, i: int) -> Option<int>
    decreases args.len() - i,
{
    if i < 0 || i >= args.len() {
        None
    } else if is_run_arg(args[i]) {
        Some(i)
    } else {
        spec_first_run_from(args, i + 1)
    }
}

/// The first named output selection at or after `i`, if any (an output
/// option without a name selects nothing).
pub open spec fn spec_first_out_from(args: Seq<ArgType>, i: int) -> Option<String>
    decreases args.len() - i,
{
    if i < 0 || i >= args.len() {
        None
    } else {
        match args[i] {
            ArgType::Output(Some(name)) => Some(name),
            _ => spec_first_out_from(args, i + 1),
        }
    }
}

/// The operation a run performs, with everything it needs.
#[derive(Debug)]
pub enum RunType {
    Scan(crate::scan::ScanArgs),
    Compare(crate::diff::CompArgs),
    Help,
}

/// What crafting a run configuration from an operation entry and an output
/// selection yields: a scan rooted at the entry's directory (`/` when none
/// was given), a comparison of the entry's two snapshot locations (both are
/// required), or the help request; with the selected output location, or the
/// operation's default one.
pub open spec fn spec_crafted(arg: ArgType, out: Option<String>, r: Result<
    RunType,
    Vec<String>,
>) -> bool {
    match arg {
        ArgType::Scan(p) => r is Ok && r->Ok_0 is Scan && {
            let sa = r->Ok_0->Scan_0;
            &&& match p {
                Some(d) => sa.dir == d,
                None => sa.dir@ == "/"@,
            }
            &&& match out {
                Some(o) => sa.out == o,
                None => sa.out@ == "scan.csv"@,
            }
        },
        ArgType::Compare(pair) => match pair {
            (Some(a), Some(b)) => r is Ok && r->Ok_0 is Compare && {
                let ca = r->Ok_0->Compare_0;
                &&& ca.old == a
                &&& ca.new == b
                &&& match out {
                    Some(o) => ca.out == o,
                    None => ca.out@ == "comp.csv"@,
                }
            },
            _ => r is Err && r->Err_0.deep_view() == seq![
                "Missing file location for compare."@,
            ],
        },
        ArgType::Help => r is Ok && r->Ok_0 is Help,
        ArgType::Output(_) => r is Err && r->Err_0.deep_view() == seq![
            "Error Crafting run type."@,
        ],
        ArgType::Error(_) => r is Err && r->Err_0.deep_view() == seq![
            "Error Crafting run type."@,
        ],
    }
}

impl RunType {
    /// The run a classified token list asks for: its first operation entry,
    /// crafted with its first named output selection.
    fn find_values(args: &Vec<ArgType>) -> (r: Result<(usize, Option<String>), ()>)
        ensures
            match r {
                Ok(p) => {
                    &&& spec_first_run_from(args@, 0) == Some(p.0 as int)
                    &&& p.0 < args@.len()
                    &&& p.1 == spec_first_out_from(args@, 0)
                },
                Err(_) => spec_first_run_from(args@, 0) is None,
            },
    {
        let mut out: Option<String> = None;
        let mut run_type: Option<usize> = None;
        let mut i: usize = 0;
        while i < args.len() && !(run_type.is_some() && out.is_some())
            invariant
                i <= args@.len(),
                match run_type {
                    Some(k) => k < args@.len() && spec_first_run_from(args@, 0) == Some(k as int),
                    None => spec_first_run_from(args@, 0) == spec_first_run_from(args@, i as int),
                },
                match out {
                    Some(o) => spec_first_out_from(args@, 0) == Some(o),
                    None => spec_first_out_from(args@, 0) == spec_first_out_from(args@, i as int),
                },
            decreases args@.len() - i,
        {
            match &args[i] {
                ArgType::Error(_) => {},
                ArgType::Scan(_) => {
                    if run_type.is_none() {
                        run_type = Some(i);
                    }
                },
                ArgType::Compare(_) => {
                    if run_type.is_none() {
                        run_type = Some(i);
                    }
                },
                ArgType::Help => {
                    if run_type.is_none() {
                        run_type = Some(i);
                    }
                },
                ArgType::Output(name) => {
                    if out.is_none() {
                        out = match name {
                            Some(n) => Some(n.clone()),
                            None => None,
                        };
                    }
                },
            }
            i = i + 1;
        }
        proof {
            if run_type is None {
                assert(spec_first_run_from(args@, i as int) is None);
            }
            if out is None && run_type is None {
                assert(spec_first_out_from(args@, i as int) is None);
            }
        }
        match run_type {
            Some(index) => Ok((index, out)),
            None => Err(()),
        }
    }

    /// Crafts the run configuration from the chosen operation entry and
    /// output selection.
    fn craft_type(args: Vec<ArgType>, run_type: usize, out: Option<String>) -> (r: Result<
        RunType,
        Vec<String>,
    >)
        requires
            run_type < args@.len(),
        ensures
            spec_crafted(args@[run_type as int], out, r),
    {
        match &args[run_type] {
            ArgType::Scan(path) => {
                let dir = match path {
                    Some(p) => p.clone(),
                    None => String::from_str("/"),
                };
                let out_file = match out {
                    Some(o) => o,
                    None => String::from_str("scan.csv"),
                };
                Ok(RunType::Scan(crate::scan::ScanArgs { dir, out: out_file }))
            },
            ArgType::Compare(pair) => {
                let old = match &pair.0 {
                    Some(o) => o.clone(),
                    None => {
                        let mut msgs: Vec<String> = Vec::new();
                        msgs.push(String::from_str("Missing file location for compare."));
                        proof {
                            assert(msgs.deep_view() =~= seq![
                                "Missing file location for compare."@,
                            ]);
                        }
                        return Err(msgs);
                    },
                };
                let new = match &pair.1 {
                    Some(n) => n.clone(),
                    None => {
                        let mut msgs: Vec<String> = Vec::new();
                        msgs.push(String::from_str("Missing file location for compare."));
                        proof {
                            assert(msgs.deep_view() =~= seq![
                                "Missing file location for compare."@,
                            ]);
                        }
                        return Err(msgs);
                    },
                };
                let out_file = match out {
                    Some(o) => o,
                    None => String::from_str("comp.csv"),
                };
                Ok(RunType::Compare(crate::diff::CompArgs { old, new, out: out_file }))
            },
            ArgType::Help => Ok(RunType::Help),
            _ => {
                let mut msgs: Vec<String> = Vec::new();
                msgs.push(String::from_str("Error Crafting run type."));
                proof {
                    assert(msgs.deep_view() =~= seq!["Error Crafting run type."@]);
                }
                Err(msgs)
            },
        }
    }

    /// Builds the run a token list asks for, or the messages that say why
    /// none can be built: the unknown tokens' messages, or the absence of
    /// any token, or the absence of an operation.
    pub fn new(tokens: &Vec<String>) -> (r: Result<RunType, Vec<String>>)
        ensures
            ({
                let parsed = spec_parse_args(tokens@, 1);
                let kept = spec_remove_errors(parsed);
                if spec_error_msgs(parsed).len() > 0 {
                    r is Err && r->Err_0.deep_view() == spec_error_msgs(parsed)
                } else if kept.len() == 0 {
                    r is Err && r->Err_0.deep_view() == seq!["No args given."@]
                } else {
                    match spec_first_run_from(kept, 0) {
                        Some(idx) => spec_crafted(kept[idx], spec_first_out_from(kept, 0), r),
                        None => r is Err && r->Err_0.deep_view() == seq!["No operation given."@],
                    }
                }
            }),
    {
        match ArgType::read_args(tokens) {
            Err(errs) => Err(errs),
            Ok(args) => {
                match RunType::find_values(&args) {
                    Err(_) => {
                        let mut msgs: Vec<String> = Vec::new();
                        msgs.push(String::from_str("No operation given."));
                        proof {
                            assert(msgs.deep_view() =~= seq!["No operation given."@]);
                        }
                        Err(msgs)
                    },
                    Ok((run_type, out)) => RunType::craft_type(args, run_type, out),
                }
            },
        }
    }
}

} // verus!
