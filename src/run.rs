use vstd::prelude::*;

verus! {

/// Which program of the project to run: the main one or the test one.
#[derive(Clone, Copy, Debug, PartialEq, Eq, Structural)]
pub enum Which {
    Src,
    Test,
}

pub open spec fn run_module(which: Which, package: Seq<char>) -> Seq<char> {
    match which {
        Which::Src => package,
        Which::Test => package + "_test"@,
    }
}

/// The module whose `main` function runs: the package's own module, or its
/// test module.
pub fn module_to_run(which: Which, package_name: &String) -> (r: String)
    ensures
        r@ == run_module(which, package_name@),
{
    match which {
        Which::Src => package_name.clone(),
        Which::Test => {
            let mut m = package_name.clone();
            m.append("_test");
            m
        },
    }
}

/// The Erlang expression that runs `module:main()` and halts with its outcome.
pub open spec fn eval_expression(module: Seq<char>) -> Seq<char> {
    "\ntry\n    "@ + module + ":main(),\n    erlang:halt(0)\ncatch\n    Class:Reason:StackTrace ->\n        PF = fun(Term, I) ->\n            io_lib:format(\"~.\" ++ integer_to_list(I) ++ \"tP\", [Term, 50])\n        end,\n        StackFn = fun(M, _F, _A) -> (M =:= erl_eval) orelse (M =:= init) end,\n        E = erl_error:format_exception(1, Class, Reason, StackTrace, StackFn, PF, unicode),\n        io:put_chars(E),\n        erlang:halt(127, [{flush, true}])\nend.\n"@
}

fn eval_text(module: &String) -> (r: String)
    ensures
        r@ == eval_expression(module@),
{
    let mut s = String::from_str("\ntry\n    ");
    s.append(module.as_str());
    s.append(":main(),\n    erlang:halt(0)\ncatch\n    Class:Reason:StackTrace ->\n        PF = fun(Term, I) ->\n            io_lib:format(\"~.\" ++ integer_to_list(I) ++ \"tP\", [Term, 50])\n        end,\n        StackFn = fun(M, _F, _A) -> (M =:= erl_eval) orelse (M =:= init) end,\n        E = erl_error:format_exception(1, Class, Reason, StackTrace, StackFn, PF, unicode),\n        io:put_chars(E),\n        erlang:halt(127, [{flush, true}])\nend.\n");
    s
}

/// Arguments of the `erl` command that runs `module`: unicode printing, one
/// code path for each compiled package directory, the expression to run, no
/// shell, and the marker after which arguments go to the program.
pub open spec fn erl_args(module: Seq<char>, ebin_dirs: Seq<String>) -> Seq<Seq<char>> {
    seq!["+pc"@, "unicode"@] + ebin_dirs.map_values(|d: String| d@).map_values(|d: Seq<char>| seq!["-pa"@, d]).flatten()
        + seq!["-eval"@, eval_expression(module), "-noshell"@, "-extra"@]
}

pub open spec fn strings_view(v: Seq<String>) -> Seq<Seq<char>> {
    v.map_values(|s: String| s@)
}

/// Builds the arguments of the `erl` command for `module` with the given
/// package `ebin` directories.
pub fn erl_arguments(module: &String, ebin_dirs: &Vec<String>) -> (r: Vec<String>)
    ensures
        strings_view(r@) == erl_args(module@, ebin_dirs@),
{
    let mut args: Vec<String> = Vec::new();
    args.push(String::from_str("+pc"));
    args.push(String::from_str("unicode"));
    let ghost head = seq!["+pc"@, "unicode"@];
    assert(strings_view(args@) =~= head);
    let mut i: usize = 0;
    let ghost paths = ebin_dirs@.map_values(|d: String| d@).map_values(|d: Seq<char>| seq!["-pa"@, d]);
    assert(paths.subrange(0, 0).flatten() =~= Seq::<Seq<char>>::empty()) by {
        assert(paths.subrange(0, 0) =~= Seq::<Seq<Seq<char>>>::empty());
    }
    assert(strings_view(args@) =~= head + paths.subrange(0, 0).flatten());
    while i < ebin_dirs.len()
        invariant
            i <= ebin_dirs@.len(),
            paths == ebin_dirs@.map_values(|d: String| d@).map_values(|d: Seq<char>| seq!["-pa"@, d]),
            head == seq!["+pc"@, "unicode"@],
            strings_view(args@) == head + paths.subrange(0, i as int).flatten(),
        decreases ebin_dirs@.len() - i,
    {
        let ghost prev = args@;
        args.push(String::from_str("-pa"));
        args.push(ebin_dirs[i].clone());
        proof {
            let p = paths.subrange(0, i + 1);
            assert(p.drop_last() =~= paths.subrange(0, i as int));
            p.drop_last().lemma_flatten_push(p.last());
            assert(p =~= p.drop_last().push(p.last()));
            assert(strings_view(args@) =~= strings_view(prev) + seq!["-pa"@, ebin_dirs@[i as int]@]);
        }
        i = i + 1;
    }
    assert(paths.subrange(0, ebin_dirs@.len() as int) =~= paths);
    let ghost body = strings_view(args@);
    args.push(String::from_str("-eval"));
    args.push(eval_text(module));
    args.push(String::from_str("-noshell"));
    args.push(String::from_str("-extra"));
    assert(strings_view(args@) =~= body + seq!["-eval"@, eval_expression(module@), "-noshell"@, "-extra"@]);
    args
}

} // verus!
