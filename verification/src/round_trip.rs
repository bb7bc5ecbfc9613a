//! What is written is read back, and what is read is read again.
//!
//! Every serializer of this library states where its bytes stand after a
//! write, and every parser states what it reads from bytes that stand at a
//! position. The theorems of this module put the two together.
//!
//! The first family speaks of values: for a value that is kept, reading at
//! the place where it was written yields the value and ends behind it.
//! What "kept" asks of a value is stated beside its type.
//!
//! The second family speaks of files: whatever was read can be written,
//! and reading what was written yields what was read before, whether or
//! not the bytes are the same. It rests on the first family and on the
//! fact that every value that a parser yields is kept.

use crate::cursor_ext::{
    lemma_string_read_is_kept, lemma_string_round_trip, parse_string, ser_string, string_kept,
};
use crate::error::Error;
use crate::exports::base_export::BaseExportView;
use crate::exports::level_export::{
    lemma_level_export_read_is_kept, lemma_level_export_round_trip, level_export_kept,
    parse_level_export, ser_level_export, LevelExportView,
};
use crate::exports::normal_export::{
    lemma_normal_export_read_is_kept, lemma_normal_export_until_round_trip, normal_export_kept,
    parse_normal_export_until, ser_normal_export, NormalExportView,
};
use crate::exports::struct_export::{
    lemma_struct_export_decoded_round_trip, lemma_struct_export_raw_round_trip,
    lemma_struct_export_read_is_kept, parse_bytecode, parse_struct_export, ser_expressions,
    ser_struct_export, ser_struct_layout, struct_layout_kept, total_code_size, StructExportView,
};
use crate::le::enc_i32;
use crate::properties::{
    lemma_property_read_is_kept, lemma_property_round_trip, parse_property, property_kept,
    ser_property, PropertyView,
};
use crate::reader::asset_trait::{paired, table_kept, Env};
use crate::reader::raw_reader::raw_env;
use crate::registry::{
    lemma_registry_read_is_kept, lemma_registry_round_trip, parse_registry, registry_kept,
    ser_registry, told_apart, AssetRegistryStateView,
};
use crate::stream::{fits, lemma_write_at_has, write_at};
use crate::ue4version::VER_UE4_16;
use vstd::prelude::*;

verus! {

/// A string that is written is read back: for the null string, for every
/// ASCII text of at most 131071 characters, and for every other text of at
/// most 131071 UTF-16 code units.
pub proof fn lemma_string_written_is_read(origin: Seq<u8>, pos: u64, s: Option<Seq<char>>)
    requires
        origin.len() <= usize::MAX,
        fits(pos, ser_string(s).len()),
        string_kept(s),
    ensures
        parse_string(write_at(origin, pos as int, ser_string(s)), pos) == Ok::<
            (Option<Seq<char>>, u64),
            Error,
        >((s, (pos + ser_string(s).len()) as u64)),
{
    crate::le::lemma_enc_dec();
    lemma_write_at_has(origin, pos as int, ser_string(s));
    lemma_string_round_trip(write_at(origin, pos as int, ser_string(s)), pos, s);
}

/// A property that is written with its tag is read back.
pub proof fn lemma_property_written_is_read(
    reading: Env,
    writing: Env,
    origin: Seq<u8>,
    pos: u64,
    v: PropertyView,
    include_header: bool,
)
    requires
        paired(reading, writing),
        origin.len() <= usize::MAX,
        ser_property(writing, v, include_header) is Ok,
        fits(pos, ser_property(writing, v, include_header)->Ok_0.len()),
        property_kept(reading, writing, v, include_header),
    ensures
        parse_property(
            reading,
            write_at(origin, pos as int, ser_property(writing, v, include_header)->Ok_0),
            pos,
            include_header,
        ) == Ok::<(Option<PropertyView>, u64), Error>(
            (Some(v), (pos + ser_property(writing, v, include_header)->Ok_0.len()) as u64),
        ),
{
    crate::le::lemma_enc_dec();
    let chunk = ser_property(writing, v, include_header)->Ok_0;
    lemma_write_at_has(origin, pos as int, chunk);
    lemma_property_round_trip(
        reading,
        writing,
        write_at(origin, pos as int, chunk),
        pos,
        v,
        include_header,
    );
}

/// An ordinary export that is written is read back with its extra bytes,
/// where it is read up to the place behind them.
pub proof fn lemma_normal_export_written_is_read(
    reading: Env,
    writing: Env,
    origin: Seq<u8>,
    pos: u64,
    v: NormalExportView,
)
    requires
        paired(reading, writing),
        origin.len() <= usize::MAX,
        ser_normal_export(writing, v) is Ok,
        fits(pos, ser_normal_export(writing, v)->Ok_0.len()),
        normal_export_kept(reading, writing, v),
    ensures
        parse_normal_export_until(
            reading,
            write_at(origin, pos as int, ser_normal_export(writing, v)->Ok_0),
            pos,
            v.base_export,
            (pos + ser_normal_export(writing, v)->Ok_0.len()) as u64,
        ) == Ok::<(NormalExportView, u64), Error>(
            (v, (pos + ser_normal_export(writing, v)->Ok_0.len()) as u64),
        ),
{
    crate::le::lemma_enc_dec();
    let chunk = ser_normal_export(writing, v)->Ok_0;
    lemma_write_at_has(origin, pos as int, chunk);
    lemma_normal_export_until_round_trip(
        reading,
        writing,
        write_at(origin, pos as int, chunk),
        pos,
        v,
    );
}

/// A level export that is written is read back, where the next export
/// starts behind it.
pub proof fn lemma_level_export_written_is_read(
    reading: Env,
    writing: Env,
    origin: Seq<u8>,
    pos: u64,
    v: LevelExportView,
)
    requires
        paired(reading, writing),
        origin.len() <= usize::MAX,
        ser_level_export(writing, v) is Ok,
        fits(pos, ser_level_export(writing, v)->Ok_0.len()),
        level_export_kept(reading, writing, v),
    ensures
        parse_level_export(
            reading,
            write_at(origin, pos as int, ser_level_export(writing, v)->Ok_0),
            pos,
            v.normal_export.base_export,
            (pos + ser_level_export(writing, v)->Ok_0.len()) as u64,
        ) == Ok::<(LevelExportView, u64), Error>(
            (v, (pos + ser_level_export(writing, v)->Ok_0.len()) as u64),
        ),
{
    crate::le::lemma_enc_dec();
    let chunk = ser_level_export(writing, v)->Ok_0;
    lemma_write_at_has(origin, pos as int, chunk);
    lemma_level_export_round_trip(reading, writing, write_at(origin, pos as int, chunk), pos, v);
}

/// A struct export with decoded bytecode that is written is read back
/// with the same expressions, from engine version [`VER_UE4_16`] on: where
/// its layout is kept and the bytes of its expressions fit the stored
/// size. The two sizes that stand before the expressions are written
/// anew, as the size of the expressions in memory and the number of their
/// bytes: the export that is read back holds the first of them, whatever
/// the export that was written held.
pub proof fn lemma_struct_export_written_is_read(
    reading: Env,
    writing: Env,
    origin: Seq<u8>,
    pos: u64,
    v: StructExportView,
)
    requires
        paired(reading, writing),
        origin.len() <= usize::MAX,
        reading.engine_version >= VER_UE4_16,
        ser_struct_export(writing, v) is Ok,
        fits(pos, ser_struct_export(writing, v)->Ok_0.len()),
        struct_layout_kept(reading, writing, v),
        v.script_bytecode is Some,
        v.script_bytecode_raw is None,
        ser_expressions(v.script_bytecode->Some_0).len() <= i32::MAX,
    ensures
        parse_struct_export(
            reading,
            write_at(origin, pos as int, ser_struct_export(writing, v)->Ok_0),
            pos,
            v.normal_export.base_export,
        ) == Ok::<(StructExportView, u64), Error>(
            (
                StructExportView {
                    script_bytecode_size: total_code_size(v.script_bytecode->Some_0) as i32,
                    ..v
                },
                (pos + ser_struct_export(writing, v)->Ok_0.len()) as u64,
            ),
        ),
        ser_struct_export(writing, v)->Ok_0 == ser_struct_layout(writing, v)->Ok_0 + (enc_i32(
            total_code_size(v.script_bytecode->Some_0) as i32,
        ) + enc_i32(ser_expressions(v.script_bytecode->Some_0).len() as i32) + ser_expressions(
            v.script_bytecode->Some_0,
        )),
{
    crate::le::lemma_enc_dec();
    let chunk = ser_struct_export(writing, v)->Ok_0;
    lemma_write_at_has(origin, pos as int, chunk);
    lemma_struct_export_decoded_round_trip(
        reading,
        writing,
        write_at(origin, pos as int, chunk),
        pos,
        v,
    );
}

/// A struct export with raw bytecode that is written is read back with
/// the same raw bytes, where the written bytes are not decoded: before
/// engine version [`VER_UE4_16`], or where decoding them fails.
pub proof fn lemma_raw_struct_export_written_is_read(
    reading: Env,
    writing: Env,
    origin: Seq<u8>,
    pos: u64,
    v: StructExportView,
)
    requires
        paired(reading, writing),
        origin.len() <= usize::MAX,
        ser_struct_export(writing, v) is Ok,
        fits(pos, ser_struct_export(writing, v)->Ok_0.len()),
        struct_layout_kept(reading, writing, v),
        v.script_bytecode is None,
        v.script_bytecode_raw is Some,
        v.script_bytecode_raw->Some_0.len() <= i32::MAX,
        reading.engine_version < VER_UE4_16 || parse_bytecode(
            write_at(origin, pos as int, ser_struct_export(writing, v)->Ok_0),
            (pos + ser_struct_layout(writing, v)->Ok_0.len() + 8) as u64,
            (pos + ser_struct_layout(writing, v)->Ok_0.len() + 8) as u64,
            v.script_bytecode_raw->Some_0.len() as i32,
            Seq::empty(),
        ) is Err,
    ensures
        parse_struct_export(
            reading,
            write_at(origin, pos as int, ser_struct_export(writing, v)->Ok_0),
            pos,
            v.normal_export.base_export,
        ) == Ok::<(StructExportView, u64), Error>(
            (v, (pos + ser_struct_export(writing, v)->Ok_0.len()) as u64),
        ),
{
    crate::le::lemma_enc_dec();
    let chunk = ser_struct_export(writing, v)->Ok_0;
    lemma_write_at_has(origin, pos as int, chunk);
    lemma_struct_export_raw_round_trip(
        reading,
        writing,
        write_at(origin, pos as int, chunk),
        pos,
        v,
    );
}

/// A registry that is written is read back, and what is read back is
/// written as the same bytes.
pub proof fn lemma_registry_written_is_read(
    origin: Seq<u8>,
    start: u64,
    v: AssetRegistryStateView,
)
    requires
        origin.len() <= i64::MAX,
        registry_kept(v),
        ser_registry(v, start) is Ok,
        start + ser_registry(v, start)->Ok_0.len() <= i64::MAX,
    ensures
        parse_registry(
            raw_env(v.engine_version),
            write_at(origin, start as int, ser_registry(v, start)->Ok_0),
            start,
        ) == Ok::<AssetRegistryStateView, Error>(v),
        ser_registry(
            parse_registry(
                raw_env(v.engine_version),
                write_at(origin, start as int, ser_registry(v, start)->Ok_0),
                start,
            )->Ok_0,
            start,
        ) == ser_registry(v, start),
{
    crate::le::lemma_enc_dec();
    let chunk = ser_registry(v, start)->Ok_0;
    lemma_write_at_has(origin, start as int, chunk);
    lemma_registry_round_trip(write_at(origin, start as int, chunk), start, v);
}

/// A string that is read, written and read again is the string that was
/// read first.
pub proof fn lemma_string_read_written_is_read(
    bytes: Seq<u8>,
    pos: u64,
    origin: Seq<u8>,
    at: u64,
)
    requires
        origin.len() <= usize::MAX,
        parse_string(bytes, pos) matches Ok((s, _)) && fits(at, ser_string(s).len()),
    ensures
        parse_string(bytes, pos) matches Ok((s, _)) && parse_string(
            write_at(origin, at as int, ser_string(s)),
            at,
        ) == Ok::<(Option<Seq<char>>, u64), Error>((s, (at + ser_string(s).len()) as u64)),
{
    let s = parse_string(bytes, pos)->Ok_0.0;
    lemma_string_read_is_kept(bytes, pos);
    lemma_string_written_is_read(origin, at, s);
}

/// A property that is read, written and read again is the property that
/// was read first: whatever is read can be written, and where its bytes
/// fit the stream, reading them yields what was read before.
pub proof fn lemma_property_read_written_is_read(
    env: Env,
    bytes: Seq<u8>,
    pos: u64,
    origin: Seq<u8>,
    at: u64,
    include_header: bool,
)
    requires
        bytes.len() <= usize::MAX,
        origin.len() <= usize::MAX,
        table_kept(env),
        parse_property(env, bytes, pos, include_header) matches Ok((Some(v), _)),
    ensures
        parse_property(env, bytes, pos, include_header) matches Ok((Some(v), _)) && ser_property(
            env,
            v,
            include_header,
        ) matches Ok(chunk) && (fits(at, chunk.len()) ==> parse_property(
            env,
            write_at(origin, at as int, chunk),
            at,
            include_header,
        ) == Ok::<(Option<PropertyView>, u64), Error>((Some(v), (at + chunk.len()) as u64))),
{
    let v = parse_property(env, bytes, pos, include_header)->Ok_0.0->Some_0;
    lemma_property_read_is_kept(env, bytes, pos, include_header);
    let chunk = ser_property(env, v, include_header)->Ok_0;
    if fits(at, chunk.len()) {
        lemma_property_written_is_read(env, env, origin, at, v, include_header);
    }
}

/// An ordinary export that is read, written and read again, up to the
/// place behind its extra bytes, is the export that was read first.
pub proof fn lemma_normal_export_read_written_is_read(
    env: Env,
    bytes: Seq<u8>,
    pos: u64,
    base: BaseExportView,
    next: u64,
    origin: Seq<u8>,
    at: u64,
)
    requires
        bytes.len() <= usize::MAX,
        origin.len() <= usize::MAX,
        table_kept(env),
        parse_normal_export_until(env, bytes, pos, base, next) is Ok,
    ensures
        parse_normal_export_until(env, bytes, pos, base, next) matches Ok((v, _))
            && ser_normal_export(env, v) matches Ok(chunk) && (fits(at, chunk.len())
            ==> parse_normal_export_until(
            env,
            write_at(origin, at as int, chunk),
            at,
            base,
            (at + chunk.len()) as u64,
        ) == Ok::<(NormalExportView, u64), Error>((v, (at + chunk.len()) as u64))),
{
    let v = parse_normal_export_until(env, bytes, pos, base, next)->Ok_0.0;
    lemma_normal_export_read_is_kept(env, bytes, pos, base, next);
    let chunk = ser_normal_export(env, v)->Ok_0;
    if fits(at, chunk.len()) {
        lemma_normal_export_written_is_read(env, env, origin, at, v);
    }
}

/// A level export that is read, written and read again, with the next
/// export behind it, is the export that was read first.
pub proof fn lemma_level_export_read_written_is_read(
    env: Env,
    bytes: Seq<u8>,
    pos: u64,
    base: BaseExportView,
    next_starting: u64,
    origin: Seq<u8>,
    at: u64,
)
    requires
        bytes.len() <= usize::MAX,
        origin.len() <= usize::MAX,
        table_kept(env),
        parse_level_export(env, bytes, pos, base, next_starting) is Ok,
    ensures
        parse_level_export(env, bytes, pos, base, next_starting) matches Ok((v, _))
            && ser_level_export(env, v) matches Ok(chunk) && (fits(at, chunk.len())
            ==> parse_level_export(
            env,
            write_at(origin, at as int, chunk),
            at,
            base,
            (at + chunk.len()) as u64,
        ) == Ok::<(LevelExportView, u64), Error>((v, (at + chunk.len()) as u64))),
{
    let v = parse_level_export(env, bytes, pos, base, next_starting)->Ok_0.0;
    lemma_level_export_read_is_kept(env, bytes, pos, base, next_starting);
    let chunk = ser_level_export(env, v)->Ok_0;
    if fits(at, chunk.len()) {
        lemma_level_export_written_is_read(env, env, origin, at, v);
    }
}

/// A registry that is read, written and read again is the registry that
/// was read first, where no two different names of its name table have
/// the same hash: two such names would be written as one.
pub proof fn lemma_registry_read_written_is_read(
    engine_version: i32,
    bytes: Seq<u8>,
    pos: u64,
    origin: Seq<u8>,
    start: u64,
)
    requires
        origin.len() <= i64::MAX,
        parse_registry(raw_env(engine_version), bytes, pos) is Ok,
        parse_registry(raw_env(engine_version), bytes, pos)->Ok_0.name_map matches Some(names)
            ==> told_apart(names),
    ensures
        parse_registry(raw_env(engine_version), bytes, pos) matches Ok(v) && ser_registry(
            v,
            start,
        ) matches Ok(chunk) && (start + chunk.len() <= i64::MAX ==> parse_registry(
            raw_env(engine_version),
            write_at(origin, start as int, chunk),
            start,
        ) == Ok::<AssetRegistryStateView, Error>(v)),
{
    let v = parse_registry(raw_env(engine_version), bytes, pos)->Ok_0;
    lemma_registry_read_is_kept(engine_version, bytes, pos, start);
    let chunk = ser_registry(v, start)->Ok_0;
    if start + chunk.len() <= i64::MAX {
        lemma_registry_written_is_read(origin, start, v);
    }
}

/// A struct export that is read, written and read again is the export
/// that was read first. For an export with decoded bytecode this holds
/// where the size in memory that it holds is the one of its expressions
/// and their bytes fit the stored size, since both sizes are written
/// anew. For an export with raw bytecode it holds where the written bytes
/// are not decoded either.
pub proof fn lemma_struct_export_read_written_is_read(
    env: Env,
    bytes: Seq<u8>,
    pos: u64,
    base: BaseExportView,
    origin: Seq<u8>,
    at: u64,
)
    requires
        bytes.len() <= isize::MAX,
        origin.len() <= usize::MAX,
        table_kept(env),
        parse_struct_export(env, bytes, pos, base) matches Ok((v, _)) && match v.script_bytecode {
            Some(code) => v.script_bytecode_size == total_code_size(code) as i32
                && ser_expressions(code).len() <= i32::MAX,
            None => env.engine_version < VER_UE4_16 || parse_bytecode(
                write_at(origin, at as int, ser_struct_export(env, v)->Ok_0),
                (at + ser_struct_layout(env, v)->Ok_0.len() + 8) as u64,
                (at + ser_struct_layout(env, v)->Ok_0.len() + 8) as u64,
                v.script_bytecode_raw->Some_0.len() as i32,
                Seq::empty(),
            ) is Err,
        },
    ensures
        parse_struct_export(env, bytes, pos, base) matches Ok((v, _)) && ser_struct_export(
            env,
            v,
        ) matches Ok(chunk) && (fits(at, chunk.len()) ==> parse_struct_export(
            env,
            write_at(origin, at as int, chunk),
            at,
            base,
        ) == Ok::<(StructExportView, u64), Error>((v, (at + chunk.len()) as u64))),
{
    let v = parse_struct_export(env, bytes, pos, base)->Ok_0.0;
    lemma_struct_export_read_is_kept(env, bytes, pos, base);
    let chunk = ser_struct_export(env, v)->Ok_0;
    if fits(at, chunk.len()) {
        if v.script_bytecode is Some {
            lemma_struct_export_written_is_read(env, env, origin, at, v);
        } else {
            lemma_raw_struct_export_written_is_read(env, env, origin, at, v);
        }
    }
}

} // verus!
