//! Queueing a saved clip for upload.
use vstd::prelude::*;

use crate::clock::{chrono_now_formatted, compact_timestamp};
use crate::settings::config::CloudSettings;
use crate::text::{chars_of, push_str, string_from_chars};
use crate::upload::queue::{queued_task, UploadMetadata, UploadQueue};
use crate::upload::{no_server_text, not_signed_in_text};

verus! {

/// The title a clip is uploaded under: its file name without a trailing
/// `.mp4`.
pub open spec fn upload_title(filename: Seq<char>) -> Seq<char> {
    if filename.len() >= 4 && filename.subrange(filename.len() - 4, filename.len() as int) == ".mp4"@ {
        filename.subrange(0, filename.len() - 4)
    } else {
        filename
    }
}

/// Computes `upload_title`.
pub fn upload_title_of(filename: &str) -> (r: String)
    ensures
        r@ == upload_title(filename@),
{
    let cs = chars_of(filename);
    let n = cs.len();
    proof {
        reveal_strlit(".mp4");
    }
    if n >= 4 && cs[n - 4] == '.' && cs[n - 3] == 'm' && cs[n - 2] == 'p' && cs[n - 1] == '4' {
        assert(cs@.subrange(n - 4, n as int) =~= ".mp4"@);
        let mut out: Vec<char> = Vec::new();
        let mut i: usize = 0;
        while i < n - 4
            invariant
                n == cs@.len(),
                n >= 4,
                i <= n - 4,
                out@ == cs@.subrange(0, i as int),
            decreases n - 4 - i,
        {
            out.push(cs[i]);
            assert(out@ =~= cs@.subrange(0, i as int + 1));
            i += 1;
        }
        string_from_chars(out.as_slice())
    } else {
        proof {
            if n >= 4 && cs@.subrange(n - 4, n as int) == ".mp4"@ {
                assert(cs@.subrange(n - 4, n as int)[0] == '.');
                assert(cs@.subrange(n - 4, n as int)[1] == 'm');
                assert(cs@.subrange(n - 4, n as int)[2] == 'p');
                assert(cs@.subrange(n - 4, n as int)[3] == '4');
            }
        }
        string_from_chars(cs.as_slice())
    }
}

/// The message for a clip file that is not there.
pub open spec fn clip_not_found_text(path: Seq<char>) -> Seq<char> {
    "Clip not found: "@ + path
}

/// Queues the clip at `path` (named `filename`, of game `game`) for upload
/// to the configured server, with what was read from the file: whether it
/// exists, its size, duration (`f64` bits) and resolution. Refused when
/// signed out (`access_token` empty), when no server is set, or when the
/// clip is missing. On success returns the new task's id,
/// `upload_<timestamp>`.
pub fn upload_clip(
    queue: &mut UploadQueue,
    cloud: &CloudSettings,
    access_token: &str,
    path: String,
    filename: &str,
    game: String,
    clip_exists: bool,
    size_bytes: u64,
    duration_secs_bits: u64,
    width: u32,
    height: u32,
) -> (r: Result<String, String>)
    ensures
        access_token@.len() == 0 ==> (r matches Err(e) && e@ == not_signed_in_text()),
        access_token@.len() > 0 && cloud.server_url@.len() == 0 ==> (r matches Err(e) && e@ == no_server_text()),
        access_token@.len() > 0 && cloud.server_url@.len() > 0 && !clip_exists ==> (r matches Err(e) && e@
            == clip_not_found_text(path@)),
        r is Err ==> final(queue)@ == old(queue)@,
        r matches Ok(id) ==> {
            let t = final(queue)@.last();
            &&& access_token@.len() > 0 && cloud.server_url@.len() > 0 && clip_exists
            &&& exists|secs: u64| id@ == "upload_"@ + #[trigger] compact_timestamp(secs as int)
            &&& final(queue)@.len() == old(queue)@.len() + 1
            &&& final(queue)@.drop_last() == old(queue)@
            &&& t == queued_task(
                t.id,
                path,
                t.server_url.unwrap(),
                t.api_key.unwrap(),
                UploadMetadata {
                    title: t.title,
                    game,
                    duration_secs_bits,
                    width,
                    height,
                    codec: t.codec,
                    size_bytes,
                },
            )
            &&& t.id@ == id@
            &&& t.server_url.unwrap()@ == cloud.server_url@
            &&& t.api_key.unwrap()@ == cloud.api_key@
            &&& t.title@ == upload_title(filename@)
            &&& t.codec@ == "h264"@
        },
        access_token@.len() > 0 && cloud.server_url@.len() > 0 && clip_exists ==> r is Ok,
{
    if access_token.is_empty() {
        return Err(String::from_str("Not authenticated — sign in first"));
    }
    if cloud.server_url.as_str().is_empty() {
        return Err(String::from_str("Server URL not configured"));
    }
    if !clip_exists {
        let mut msg: Vec<char> = Vec::new();
        push_str(&mut msg, "Clip not found: ");
        push_str(&mut msg, path.as_str());
        return Err(string_from_chars(msg.as_slice()));
    }
    let title = upload_title_of(filename);
    let codec = String::from_str("h264");
    let stamp = chrono_now_formatted();
    let mut id_chars: Vec<char> = Vec::new();
    push_str(&mut id_chars, "upload_");
    push_str(&mut id_chars, stamp.as_str());
    let id = string_from_chars(id_chars.as_slice());
    let task_id = string_from_chars(id_chars.as_slice());
    let metadata = UploadMetadata { title, game, duration_secs_bits, width, height, codec, size_bytes };
    let ghost m = metadata;
    queue.enqueue_with_meta(task_id, path, cloud.server_url.clone(), cloud.api_key.clone(), metadata);
    proof {
        reveal_strlit("h264");
        let secs = choose|secs: u64| stamp@ == #[trigger] compact_timestamp(secs as int);
        assert(id@ == "upload_"@ + compact_timestamp(secs as int));
        assert(final(queue)@.drop_last() =~= old(queue)@);
    }
    Ok(id)
}

} // verus!
