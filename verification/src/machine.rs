//! The machine as a whole: loading a program, stepping and running it.
//!
//! A machine is loaded, runs instruction by instruction, and ends either
//! halted, when the program counter has left the code, or faulted, when an
//! instruction could not be fetched or executed.

use vstd::prelude::*;
use vstd::utf8::{decode_utf8, valid_utf8};
use crate::cpu::{CpuState, CpuView, GP, SP};
use crate::dram::{checked_place, Dram, DRAM_SIZE};
use crate::endian::in_range;
use crate::elf_parser::{
    data_name, elf_parser, extract_prog_bits, find_data_section, find_text_section, first_where,
    header_spec, is_first_where, is_named, lemma_first_where, names_spec,
    raw_section_header_parser, raw_sections_spec, section_bytes, section_header_final, text_name,
    SectionHeader,
};
use crate::error::EmulatorError;
use crate::instruction::fetch;
use crate::instruction::instruction::{execute_32, get_instructions, outcome_matches};
use crate::instruction::semantics::{execute_spec, Executed, State};

verus! {

/// The registers, the memory and the extent of the code.
pub struct Machine {
    pub cpu: CpuState,
    pub dram: Dram,
    /// The address of the first instruction.
    pub text_base: u64,
    /// The length of the code in bytes.
    pub text_size: u64,
}

/// The mathematical content of a [`Machine`].
pub struct MachineView {
    pub state: State,
    pub text_base: u64,
    pub text_size: u64,
}

impl View for Machine {
    type V = MachineView;

    open spec fn view(&self) -> MachineView {
        MachineView {
            state: State { cpu: self.cpu@, mem: self.dram@ },
            text_base: self.text_base,
            text_size: self.text_size,
        }
    }
}

impl MachineView {
    /// Whether the program counter has left the code at its upper end.
    pub open spec fn halted(self) -> bool {
        self.state.cpu.pc >= self.text_base + self.text_size
    }

    /// The machine in another state.
    pub open spec fn with_state(self, state: State) -> MachineView {
        MachineView { state, text_base: self.text_base, text_size: self.text_size }
    }
}

/// One step: the word at the program counter is fetched and executed.
pub open spec fn step_spec(s: State) -> Result<Executed, EmulatorError> {
    match fetch(s.mem, s.cpu.pc) {
        Ok(word) => execute_spec(s, word),
        Err(e) => Err(e),
    }
}

/// Every fetch lies inside the memory: a step that runs to its end has
/// fetched four bytes that the memory has.
pub proof fn lemma_fetch_lies_inside(s: State)
    ensures
        step_spec(s) is Ok ==> in_range(s.mem.len(), s.cpu.pc as int, 4),
{
}

/// Where a run stands.
#[derive(Debug, Clone, Copy, PartialEq, Eq, Structural)]
pub enum Status {
    /// The steps that were allowed have been made and the program has not
    /// ended.
    Running,
    /// The program counter has left the code.
    Halted,
    /// A step failed. The machine is as it was before that step.
    Faulted(EmulatorError),
}

/// What a run reports.
pub struct Run {
    pub status: Status,
    /// What the program wrote to standard output during the run.
    pub output: Vec<u8>,
}

/// What a run leaves behind, mathematically.
pub struct RunView {
    pub machine: MachineView,
    pub status: Status,
    pub output: Seq<u8>,
}

impl RunView {
    /// The same run with `before` written ahead of its output.
    pub open spec fn after(self, before: Seq<u8>) -> RunView {
        RunView { machine: self.machine, status: self.status, output: before + self.output }
    }
}

/// The bytes that a step writes.
pub open spec fn written(output: Option<Seq<u8>>) -> Seq<u8> {
    match output {
        Some(bytes) => bytes,
        None => Seq::empty(),
    }
}

/// A run of at most `steps` steps. Each step executes one instruction;
/// after it the run ends if the program counter has left the code. A step
/// that fails ends the run.
pub open spec fn run_spec(m: MachineView, steps: nat) -> RunView
    decreases steps,
{
    if steps == 0 {
        RunView { machine: m, status: Status::Running, output: Seq::empty() }
    } else {
        match step_spec(m.state) {
            Err(e) => RunView { machine: m, status: Status::Faulted(e), output: Seq::empty() },
            Ok(executed) => {
                let next = m.with_state(executed.state);
                if next.halted() {
                    RunView {
                        machine: next,
                        status: Status::Halted,
                        output: written(executed.output),
                    }
                } else {
                    run_spec(next, (steps - 1) as nat).after(written(executed.output))
                }
            },
        }
    }
}

/// The text that `std::string::String::from_utf8_lossy` makes of `bytes`:
/// valid UTF-8 is decoded, and what is not valid shows as replacement
/// characters.
pub uninterp spec fn lossy_text(bytes: Seq<u8>) -> Seq<char>;

/// `std::string::String::from_utf8_lossy`, with its result copied into a
/// string of its own. The result is named [`lossy_text`]; of valid UTF-8 it
/// is the decoded text.
#[verifier::external_body]
fn from_utf8_lossy(bytes: &[u8]) -> (text: String)
    ensures
        text@ == lossy_text(bytes@),
        valid_utf8(bytes@) ==> text@ == decode_utf8(bytes@),
{
    String::from_utf8_lossy(bytes).into_owned()
}

/// The text that standard output is to show for the bytes that a program
/// wrote.
pub fn render_output(bytes: &[u8]) -> (text: String)
    ensures
        text@ == lossy_text(bytes@),
        valid_utf8(bytes@) ==> text@ == decode_utf8(bytes@),
{
    from_utf8_lossy(bytes)
}

/// The first position in `names` that holds `name`.
pub open spec fn first_named(names: Seq<Seq<char>>, name: Seq<char>) -> Option<int> {
    first_where(names, is_name(name))
}

/// Whether a name is `name`.
pub open spec fn is_name(name: Seq<char>) -> spec_fn(Seq<char>) -> bool {
    |n: Seq<char>| n == name
}

/// The registers of a machine that is about to start: all zero but the
/// stack pointer, which points just past the memory, the global pointer,
/// which points at the data, and the program counter, which points at the
/// code.
pub open spec fn initial_cpu(text_base: u64, data_base: Option<u64>) -> CpuView {
    let zeros = CpuView { regs: Seq::new(32, |i: int| 0u64), pc: text_base as u32 };
    let with_stack = zeros.write(SP, DRAM_SIZE as u64);
    match data_base {
        Some(base) => with_stack.write(GP, base),
        None => with_stack,
    }
}

/// The machine that a program consists of: code `text` at `text_at`, data
/// `data` at `data_at` where there is data, in a memory that is zero
/// elsewhere. The code is placed first.
pub open spec fn image_spec(text: Seq<u8>, text_at: u64, data: Option<(Seq<u8>, u64)>) -> Result<
    MachineView,
    EmulatorError,
> {
    let zeros = Seq::new(DRAM_SIZE as nat, |i: int| 0u8);
    match checked_place(zeros, text_at as int, text) {
        Err(e) => Err(e),
        Ok(with_text) => match data {
            None => Ok(
                MachineView {
                    state: State { cpu: initial_cpu(text_at, None), mem: with_text },
                    text_base: text_at,
                    text_size: text.len() as u64,
                },
            ),
            Some((bytes, data_at)) => match checked_place(with_text, data_at as int, bytes) {
                Err(e) => Err(e),
                Ok(mem) => Ok(
                    MachineView {
                        state: State { cpu: initial_cpu(text_at, Some(data_at)), mem },
                        text_base: text_at,
                        text_size: text.len() as u64,
                    },
                ),
            },
        },
    }
}

/// The data of a program: the bytes and the address of the first section
/// named `.data`, if there is one.
pub open spec fn data_spec(file: Seq<u8>, raw: Seq<SectionHeader>, names: Seq<Seq<char>>)
    -> Result<Option<(Seq<u8>, u64)>, EmulatorError> {
    match first_named(names, data_name()) {
        None => Ok(None),
        Some(d) => match section_bytes(file, raw[d]) {
            Err(e) => Err(e),
            Ok(bytes) => Ok(Some((bytes, raw[d].section_address))),
        },
    }
}

/// The machine that loading `file` yields. The steps, each of which can
/// fail: read the file header; read the section headers; look up their
/// names; find the section `.text` and take its bytes; place them; find
/// the section `.data`, if there is one, and place its bytes.
pub open spec fn load_spec(file: Seq<u8>) -> Result<MachineView, EmulatorError> {
    match header_spec(file) {
        Err(e) => Err(e),
        Ok(elf) => match raw_sections_spec(file, elf) {
            Err(e) => Err(e),
            Ok(raw) => match names_spec(file, raw) {
                Err(e) => Err(e),
                Ok(names) => match first_named(names, text_name()) {
                    None => Err(EmulatorError::NoTextSection),
                    Some(t) => match section_bytes(file, raw[t]) {
                        Err(e) => Err(e),
                        Ok(text) => match checked_place(
                            Seq::new(DRAM_SIZE as nat, |i: int| 0u8),
                            raw[t].section_address as int,
                            text,
                        ) {
                            Err(e) => Err(e),
                            Ok(_) => match data_spec(file, raw, names) {
                                Err(e) => Err(e),
                                Ok(data) => image_spec(text, raw[t].section_address, data),
                            },
                        },
                    },
                },
            },
        },
    }
}

/// A loaded program lies inside the memory: the memory has its full
/// length, and the code ends where the memory ends at the latest.
pub proof fn lemma_loaded_code_lies_inside(file: Seq<u8>)
    ensures
        load_spec(file) matches Ok(m) ==> m.state.mem.len() == DRAM_SIZE && m.text_base
            + m.text_size <= DRAM_SIZE && m.state.cpu.pc == m.text_base && m.state.cpu.wf(),
{
}

/// Finding a section by its name among the headers is finding the name
/// among the names.
proof fn lemma_first_named(headers: Seq<SectionHeader>, names: Seq<Seq<char>>, name: Seq<char>)
    requires
        headers.len() == names.len(),
        forall|i: int|
            0 <= i < names.len() ==> (#[trigger] headers[i]).name_view() == Some(names[i]),
    ensures
        first_where(headers, is_named(name)) == first_named(names, name),
{
    let p = is_name(name);
    match first_where(headers, is_named(name)) {
        Some(i) => {
            assert(is_first_where(headers, is_named(name), i));
            assert(p(names[i]));
            assert forall|j: int| 0 <= j < i implies !p(#[trigger] names[j]) by {
                assert(!is_named(name)(headers[j]));
            }
            lemma_first_where(names, p, Some(i));
        },
        None => {
            assert forall|j: int| 0 <= j < names.len() implies !p(#[trigger] names[j]) by {
                if is_named(name)(headers[j]) {
                    lemma_some_first(headers, is_named(name), j);
                }
            }
            lemma_first_where(names, p, None);
        },
    }
}

/// Where an item satisfies `p`, there is a first one that does.
proof fn lemma_some_first<T>(s: Seq<T>, p: spec_fn(T) -> bool, at: int)
    requires
        0 <= at < s.len(),
        p(s[at]),
    ensures
        first_where(s, p) is Some,
    decreases at,
{
    if forall|j: int| 0 <= j < at ==> !p(#[trigger] s[j]) {
        assert(is_first_where(s, p, at));
    } else {
        let j = choose|j: int| 0 <= j < at && p(#[trigger] s[j]);
        lemma_some_first(s, p, j);
    }
}

/// How a run that can make a step goes on after that step.
proof fn lemma_run_goes_on(m: MachineView, steps: nat, before: Seq<u8>)
    requires
        steps > 0,
        step_spec(m.state) is Ok,
    ensures
        ({
            let executed = step_spec(m.state)->Ok_0;
            let next = m.with_state(executed.state);
            run_spec(m, steps).after(before) == if next.halted() {
                RunView {
                    machine: next,
                    status: Status::Halted,
                    output: before + written(executed.output),
                }
            } else {
                run_spec(next, (steps - 1) as nat).after(before + written(executed.output))
            }
        }),
{
    let executed = step_spec(m.state)->Ok_0;
    let next = m.with_state(executed.state);
    if !next.halted() {
        let rest = run_spec(next, (steps - 1) as nat);
        assert(before + (written(executed.output) + rest.output) =~= (before + written(
            executed.output,
        )) + rest.output);
    }
}

/// How a run ends whose next step fails.
proof fn lemma_run_faults(m: MachineView, steps: nat, before: Seq<u8>)
    requires
        steps > 0,
        step_spec(m.state) is Err,
    ensures
        run_spec(m, steps).after(before) == (RunView {
            machine: m,
            status: Status::Faulted(step_spec(m.state)->Err_0),
            output: before,
        }),
{
    assert(before + Seq::<u8>::empty() =~= before);
}

/// How a run ends that may make no step.
proof fn lemma_run_pauses(m: MachineView, before: Seq<u8>)
    ensures
        run_spec(m, 0).after(before) == (RunView {
            machine: m,
            status: Status::Running,
            output: before,
        }),
{
    assert(before + Seq::<u8>::empty() =~= before);
}

impl Machine {
    /// A machine with all registers zero and a memory of zeros, whose code
    /// is said to lie at `text_base` and to be `text_size` bytes long.
    pub fn new(text_base: u64, text_size: u64) -> (r: Self)
        ensures
            r@.state.cpu.wf(),
            r@.state.cpu.regs == Seq::new(32, |i: int| 0u64),
            r@.state.cpu.pc == 0,
            r@.state.mem == Seq::new(DRAM_SIZE as nat, |i: int| 0u8),
            r@.text_base == text_base,
            r@.text_size == text_size,
    {
        Machine { cpu: CpuState::new(), dram: Dram::new_dram(), text_base, text_size }
    }

    /// Loads the program in `data`: its code and its data are placed in a
    /// fresh memory, the stack pointer is set just past the memory, the
    /// global pointer to the data and the program counter to the code.
    pub fn load(data: &[u8]) -> (r: Result<Self, EmulatorError>)
        ensures
            match load_spec(data@) {
                Ok(m) => r is Ok && r->Ok_0@ == m && m.state.cpu.wf(),
                Err(e) => r is Err && r->Err_0 == e,
            },
    {
        let elf = elf_parser(data)?;
        let mut sections = raw_section_header_parser(data, &elf)?;
        let ghost raw = sections@;
        section_header_final(data, &mut sections)?;
        proof {
            let names = names_spec(data@, raw)->Ok_0;
            lemma_first_named(sections@, names, text_name());
            lemma_first_named(sections@, names, data_name());
        }
        let text = find_text_section(&sections)?;
        let bits = extract_prog_bits(data, text)?;
        let size = DRAM_SIZE as u64;
        if text.section_address > size {
            return Err(EmulatorError::BadAddress);
        }
        let mut machine = Machine::new(text.section_address, text.section_size);
        machine.dram.write_bytes(text.section_address as usize, bits)?;
        machine.cpu.set_pc(text.section_address as u32);
        machine.cpu.write_reg(SP, size);
        match find_data_section(&sections) {
            Some(section) => {
                let bytes = extract_prog_bits(data, section)?;
                if section.section_address > size {
                    return Err(EmulatorError::BadAddress);
                }
                machine.dram.write_bytes(section.section_address as usize, bytes)?;
                machine.cpu.write_reg(GP, section.section_address);
            },
            None => {},
        }
        Ok(machine)
    }

    /// Whether the program has ended: the program counter is at or past the
    /// end of the code.
    pub fn halted(&self) -> (r: bool)
        ensures
            r == self@.halted(),
    {
        let pc = self.cpu.pc() as u64;
        pc >= self.text_base && pc - self.text_base >= self.text_size
    }

    /// Fetches the instruction at the program counter and executes it.
    ///
    /// The result holds the bytes that the instruction asks to have
    /// written to standard output. A step that fails changes nothing.
    pub fn step(&mut self) -> (r: Result<Option<Vec<u8>>, EmulatorError>)
        ensures
            final(self)@.state.cpu.wf(),
            final(self)@.state.mem.len() == DRAM_SIZE,
            final(self)@.text_base == old(self)@.text_base,
            final(self)@.text_size == old(self)@.text_size,
            outcome_matches(old(self)@.state, final(self)@.state, r, step_spec(old(self)@.state)),
    {
        let pc = self.cpu.pc();
        let word = get_instructions(self.dram.as_slice(), pc)?;
        execute_32(word, &mut self.cpu, &mut self.dram)
    }

    /// Runs the program for at most `max_steps` steps and collects what it
    /// writes to standard output.
    pub fn run(&mut self, max_steps: u64) -> (r: Run)
        ensures
            final(self)@ == run_spec(old(self)@, max_steps as nat).machine,
            r.status == run_spec(old(self)@, max_steps as nat).status,
            r.output@ == run_spec(old(self)@, max_steps as nat).output,
            final(self)@.state.cpu.wf(),
    {
        let mut output: Vec<u8> = Vec::new();
        let mut done: u64 = 0;
        proof {
            use_type_invariant(&self.cpu);
            assert(Seq::<u8>::empty() + run_spec(self@, max_steps as nat).output =~= run_spec(
                self@,
                max_steps as nat,
            ).output);
        }
        while done < max_steps
            invariant
                done <= max_steps,
                self@.state.cpu.wf(),
                run_spec(old(self)@, max_steps as nat) == run_spec(
                    self@,
                    (max_steps - done) as nat,
                ).after(output@),
            decreases max_steps - done,
        {
            let ghost before = output@;
            let ghost here = self@;
            let ghost left = (max_steps - done) as nat;
            match self.step() {
                Err(e) => {
                    proof {
                        lemma_run_faults(here, left, before);
                    }
                    return Run { status: Status::Faulted(e), output };
                },
                Ok(bytes) => {
                    proof {
                        lemma_run_goes_on(here, left, before);
                    }
                    match bytes {
                        Some(mut bytes) => {
                            output.append(&mut bytes);
                        },
                        None => {
                            assert(before + Seq::<u8>::empty() =~= before);
                        },
                    }
                    if self.halted() {
                        return Run { status: Status::Halted, output };
                    }
                },
            }
            done += 1;
        }
        proof {
            lemma_run_pauses(self@, output@);
        }
        Run { status: Status::Running, output }
    }
}

} // verus!
