//! The assembler as an outside program.
//!
//! The assembler is run on a source file in the working directory and
//! writes a binary file. What is decided here is how it is called and what
//! its outcome means; running it is the caller's part.

use vstd::prelude::*;
use vstd::string::*;
use crate::asm_wrapper::prg_file;
use crate::bytes::append_all;
use crate::config::Config;
use crate::text::{decimal, decimal_chars};

verus! {

/// Name of the assembler's program file.
pub const EXE_NAME: &'static str = "vasm6502_std";

/// An assembly that failed: with the assembler's words, or with those of the
/// system that was to run it.
#[derive(Debug)]
pub enum AsmError {
    Asm(String),
    Io(String),
}

/// The result of an assembly as a spec value.
pub open spec fn outcome_view(r: Result<Vec<u8>, AsmError>) -> Result<Seq<u8>, (bool, Seq<char>)> {
    match r {
        Ok(bytes) => Ok(bytes@),
        Err(AsmError::Asm(message)) => Err((true, message@)),
        Err(AsmError::Io(message)) => Err((false, message@)),
    }
}

/// An exit code in decimal, with a minus sign where it is negative.
pub open spec fn exit_code_chars(code: i32) -> Seq<char> {
    if code < 0 {
        "-"@ + decimal_chars((-code) as nat)
    } else {
        decimal_chars(code as nat)
    }
}

/// The message for an assembler that ended with a failure: its exit code,
/// then what it wrote as errors, or else what it wrote as output.
pub open spec fn failure_text(code: i32, errors: Seq<char>, output: Seq<char>) -> Seq<char> {
    "VASM compilation failed (exit code: "@ + exit_code_chars(code) + ")\n"@ + if errors.len() > 0 {
        "\nErrors:\n"@ + errors
    } else if output.len() > 0 {
        "\nOutput:\n"@ + output
    } else {
        "\n(no output from assembler)\n"@
    }
}

/// The arguments that the assembler is called with: raw binary output,
/// quiet, labels checked, the output file and the source file.
pub open spec fn argument_list(out_path: Seq<char>, asm_path: Seq<char>) -> Seq<Seq<char>> {
    seq!["-Fbin"@, "-quiet"@, "-chklabels"@, "-o"@, out_path, asm_path]
}

/// The views of a list of strings.
pub open spec fn string_views(list: Seq<String>) -> Seq<Seq<char>> {
    Seq::new(list.len(), |i: int| list[i]@)
}

/// The assembler as an outside program.
pub struct Assembler6502 {
    config: Config,
}

impl Assembler6502 {
    /// The working directory of the assembler.
    pub closed spec fn work_path(&self) -> Seq<char> {
        self.config.work_path@
    }

    /// An assembler that works in the working directory of `config`.
    pub fn new(config: &Config) -> (r: Self)
        ensures
            r.work_path() == config.work_path@,
    {
        Assembler6502 { config: Config { work_path: config.work_path.clone() } }
    }

    /// The working directory.
    pub fn work_dir(&self) -> (r: &str)
        ensures
            r@ == self.work_path(),
    {
        self.config.work_str()
    }

    /// Name of the source file for a run with the stamp `stamp`.
    pub fn source_name(stamp: &str) -> (r: String)
        ensures
            r@ == "temp_"@ + stamp@ + ".asm"@,
    {
        let mut name = String::from_str("temp_");
        name.append(stamp);
        name.append(".asm");
        name
    }

    /// Name of the binary file for a run with the stamp `stamp`.
    pub fn output_name(stamp: &str) -> (r: String)
        ensures
            r@ == "temp_"@ + stamp@ + ".bin"@,
    {
        let mut name = String::from_str("temp_");
        name.append(stamp);
        name.append(".bin");
        name
    }

    /// The arguments that the assembler is called with.
    pub fn arguments(out_path: &str, asm_path: &str) -> (r: Vec<String>)
        ensures
            string_views(r@) == argument_list(out_path@, asm_path@),
    {
        let mut list: Vec<String> = Vec::new();
        list.push(String::from_str("-Fbin"));
        list.push(String::from_str("-quiet"));
        list.push(String::from_str("-chklabels"));
        list.push(String::from_str("-o"));
        list.push(String::from_str(out_path));
        list.push(String::from_str(asm_path));
        assert(string_views(list@) =~= argument_list(out_path@, asm_path@));
        list
    }

    /// The error for an assembler that ended with a failure. `errors` and
    /// `output` are what it wrote, without white space around them.
    pub fn failure(exit_code: Option<i32>, errors: &str, output: &str) -> (r: AsmError)
        ensures
            r matches AsmError::Asm(m) && m@ == failure_text(
                match exit_code {
                    Some(code) => code,
                    None => -1i32,
                },
                errors@,
                output@,
            ),
    {
        let code: i32 = match exit_code {
            Some(code) => code,
            None => -1,
        };
        let mut msg = String::from_str("VASM compilation failed (exit code: ");
        if code < 0 {
            msg.append("-");
            let magnitude: u64 = (-(code as i64)) as u64;
            msg.append(crate::text::decimal64(magnitude).as_str());
            assert(msg@ =~= "VASM compilation failed (exit code: "@ + exit_code_chars(code));
        } else {
            msg.append(decimal(code as usize).as_str());
        }
        msg.append(")\n");
        if !errors.is_empty() {
            msg.append("\nErrors:\n");
            msg.append(errors);
            assert(msg@ =~= failure_text(code, errors@, output@));
        } else if !output.is_empty() {
            msg.append("\nOutput:\n");
            msg.append(output);
            assert(msg@ =~= failure_text(code, errors@, output@));
        } else {
            msg.append("\n(no output from assembler)\n");
        }
        AsmError::Asm(msg)
    }

    /// What a run that ended well gave: the binary, unless the assembler
    /// wrote no file or an empty one.
    pub fn checked_binary(written: Option<Vec<u8>>) -> (r: Result<Vec<u8>, AsmError>)
        ensures
            match written {
                None => outcome_view(r) == Err::<Seq<u8>, (bool, Seq<char>)>(
                    (true, "VASM reported success but no output file was produced."@),
                ),
                Some(bytes) => if bytes@.len() == 0 {
                    outcome_view(r) == Err::<Seq<u8>, (bool, Seq<char>)>(
                        (true, "VASM produced an empty output file."@),
                    )
                } else {
                    outcome_view(r) == Ok::<Seq<u8>, (bool, Seq<char>)>(bytes@)
                },
            },
    {
        match written {
            None => Err(
                AsmError::Asm(
                    String::from_str("VASM reported success but no output file was produced."),
                ),
            ),
            Some(bytes) => if bytes.len() == 0 {
                Err(AsmError::Asm(String::from_str("VASM produced an empty output file.")))
            } else {
                Ok(bytes)
            },
        }
    }

    /// The program file for an assembly: the load address `$0801` in front of
    /// the binary; a failure stays what it is.
    pub fn assemble_prg(&self, assembled: Result<Vec<u8>, AsmError>) -> (r: Result<
        Vec<u8>,
        AsmError,
    >)
        ensures
            outcome_view(r) == match outcome_view(assembled) {
                Ok(binary) => Ok(prg_file(binary)),
                Err(e) => Err(e),
            },
    {
        match assembled {
            Ok(binary) => {
                let mut prg: Vec<u8> = Vec::new();
                prg.push(0x01);
                prg.push(0x08);
                append_all(&mut prg, binary.as_slice());
                assert(prg@ =~= prg_file(binary@));
                Ok(prg)
            },
            Err(e) => Err(e),
        }
    }
}

} // verus!
