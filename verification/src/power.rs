//! Power actions offered in the power menu.

use vstd::prelude::*;
use crate::greeter::Greeter;
use crate::menu::MenuItem;
use crate::text::{clone_opt, owned, split_on, split_str};

verus! {

/// What a power entry does.
#[derive(Debug, Clone, Copy, PartialEq, Eq, Structural)]
pub enum PowerOption {
    Shutdown,
    Reboot,
}

/// An entry of the power menu: its action, label and configured command.
#[derive(Debug)]
pub struct Power {
    pub action: PowerOption,
    pub label: String,
    pub command: Option<String>,
}

pub struct PowerView {
    pub action: PowerOption,
    pub label: Seq<char>,
    pub command: Option<Seq<char>>,
}

impl View for Power {
    type V = PowerView;

    open spec fn view(&self) -> PowerView {
        PowerView { action: self.action, label: self.label@, command: self.command.deep_view() }
    }
}

impl MenuItem for Power {
    fn format(&self) -> (r: String)
        ensures
            r@ == self.label@,
    {
        self.label.clone()
    }
}

impl Power {
    /// A copy.
    pub fn duplicate(&self) -> (r: Power)
        ensures
            r@ == self@,
    {
        Power { action: self.action, label: self.label.clone(), command: clone_opt(&self.command) }
    }
}


/// The first entry of the power menu for an action.
pub open spec fn entry_for(options: Seq<PowerView>, option: PowerOption) -> Option<PowerView>
    decreases options.len(),
{
    if options.len() == 0 {
        None
    } else if options[0].action == option {
        Some(options[0])
    } else {
        entry_for(options.drop_first(), option)
    }
}

/// The command line a power action runs: the configured command split at its spaces
/// (run through `setsid` where asked), or `shutdown -h now` / `shutdown -r now` where the
/// entry has none; nothing where the menu has no entry for the action.
pub open spec fn power_argv(options: Seq<PowerView>, setsid: bool, option: PowerOption) -> Option<
    Seq<Seq<char>>,
> {
    match entry_for(options, option) {
        None => None,
        Some(p) => Some(
            match p.command {
                Some(c) => if setsid {
                    seq!["setsid"@] + split_on(c, ' ')
                } else {
                    split_on(c, ' ')
                },
                None => seq![
                    "shutdown"@,
                    if option == PowerOption::Shutdown { "-h"@ } else { "-r"@ },
                    "now"@,
                ],
            },
        ),
    }
}

/// The command line a power action runs (see [`power_argv`]).
pub fn power_command(greeter: &Greeter, option: PowerOption) -> (r: Option<Vec<String>>)
    ensures
        r.deep_view() == power_argv(greeter@.powers.options, greeter@.power_setsid, option),
{
    let options = &greeter.powers.options;
    let ghost ov = greeter@.powers.options;
    let mut i: usize = 0;
    assert(ov.skip(0) =~= ov);
    while i < options.len()
        invariant
            i <= options@.len(),
            ov == options@.map_values(|p: Power| p@),
            ov == greeter@.powers.options,
            options@ == greeter.powers.options@,
            entry_for(ov, option) == entry_for(ov.skip(i as int), option),
        decreases options.len() - i,
    {
        assert(ov.skip(i as int)[0] == options@[i as int]@);
        if options[i].action == option {
            let argv = match &options[i].command {
                Some(c) => {
                    let pieces = split_str(c.as_str(), ' ');
                    if greeter.power_setsid {
                        let mut argv = vec![owned("setsid")];
                        let mut rest = pieces;
                        argv.append(&mut rest);
                        assert(argv.deep_view() =~= seq!["setsid"@] + split_on(c@, ' '));
                        argv
                    } else {
                        pieces
                    }
                },
                None => {
                    let flag = if option == PowerOption::Shutdown {
                        owned("-h")
                    } else {
                        owned("-r")
                    };
                    let argv = vec![owned("shutdown"), flag, owned("now")];
                    assert(argv.deep_view() =~= seq![
                        "shutdown"@,
                        if option == PowerOption::Shutdown { "-h"@ } else { "-r"@ },
                        "now"@,
                    ]);
                    argv
                },
            };
            return Some(argv);
        }
        assert(ov.skip(i as int).drop_first() =~= ov.skip(i + 1));
        i = i + 1;
    }
    None
}

proof fn lemma_entry_for_first(options: Seq<PowerView>, option: PowerOption, i: int)
    requires
        0 <= i < options.len(),
        options[i].action == option,
        forall|j: int| 0 <= j < i ==> options[j].action != option,
    ensures
        entry_for(options, option) == Some(options[i]),
    decreases i,
{
    if i > 0 {
        let rest = options.drop_first();
        assert forall|j: int| 0 <= j < i - 1 implies rest[j].action != option by {
            assert(rest[j] == options[j + 1]);
        }
        assert(options[0].action != option);
        lemma_entry_for_first(rest, option, i - 1);
    }
}

proof fn lemma_entry_for_none(options: Seq<PowerView>, option: PowerOption)
    requires
        forall|j: int| 0 <= j < options.len() ==> options[j].action != option,
    ensures
        entry_for(options, option) is None,
    decreases options.len(),
{
    if options.len() > 0 {
        let rest = options.drop_first();
        assert forall|j: int| 0 <= j < rest.len() implies rest[j].action != option by {
            assert(rest[j] == options[j + 1]);
        }
        lemma_entry_for_none(rest, option);
    }
}

/// A power action runs the command of the first menu entry for it: where that entry has
/// a command configured, the command split at its spaces, behind `setsid` where asked;
/// only where it has none, `shutdown -h now` for shutting down and `shutdown -r now` for
/// rebooting. An action the menu has no entry for runs nothing.
pub proof fn lemma_power_runs_configured_command(
    options: Seq<PowerView>,
    setsid: bool,
    option: PowerOption,
    i: int,
)
    requires
        0 <= i < options.len(),
        options[i].action == option,
        forall|j: int| 0 <= j < i ==> options[j].action != option,
    ensures
        options[i].command matches Some(c) ==> power_argv(options, setsid, option) == Some(
            if setsid { seq!["setsid"@] + split_on(c, ' ') } else { split_on(c, ' ') },
        ),
        options[i].command is None && option == PowerOption::Shutdown ==> power_argv(options, setsid, option)
            == Some(seq!["shutdown"@, "-h"@, "now"@]),
        options[i].command is None && option == PowerOption::Reboot ==> power_argv(options, setsid, option)
            == Some(seq!["shutdown"@, "-r"@, "now"@]),
{
    lemma_entry_for_first(options, option, i);
}

/// No entry for an action in the power menu: the action runs nothing.
pub proof fn lemma_power_without_entry(options: Seq<PowerView>, setsid: bool, option: PowerOption)
    requires
        forall|j: int| 0 <= j < options.len() ==> options[j].action != option,
    ensures
        power_argv(options, setsid, option) is None,
{
    lemma_entry_for_none(options, option);
}

} // verus!
