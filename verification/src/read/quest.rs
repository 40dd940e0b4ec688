//! Decoding a quest container straight into its quest metadata.

use vstd::prelude::*;
use crate::read::ReadError;
use crate::read::bin::spec_bin_result;
use crate::read::dat::spec_dat_result;
use crate::read::qst::{self, QstFile};
use crate::types::Quest;

verus! {

/// Decode a quest container into its quest metadata: the name and short
/// description of its metadata file, and the episode and monster counts of
/// its object file.
pub fn read(data: &Vec<u8>) -> (r: Result<Quest, ReadError>)
    ensures
        match r {
            Ok(q) => match qst::spec_read_qst(data@) {
                Ok(streams) => spec_dat_result(streams.0) == Ok::<_, ReadError>(
                    (q.episode, q.monster_counts@),
                ) && spec_bin_result(streams.1) == Ok::<_, ReadError>(
                    (q.name@, q.short_description@),
                ),
                Err(_) => false,
            },
            Err(e) => match qst::spec_read_qst(data@) {
                Err(e2) => e == e2,
                Ok(streams) => match spec_dat_result(streams.0) {
                    Err(e2) => e == e2,
                    Ok(_) => spec_bin_result(streams.1) == Err::<(Seq<char>, Seq<char>), ReadError>(
                        e,
                    ),
                },
            },
        },
{
    let qst_file = match qst::read(data) {
        Ok(q) => q,
        Err(e) => {
            return Err(e);
        },
    };
    let QstFile { dat, bin } = qst_file;
    Ok(
        Quest {
            name: bin.quest_name,
            short_description: bin.short_description,
            episode: dat.episode,
            monster_counts: dat.monster_counts,
        },
    )
}

} // verus!
