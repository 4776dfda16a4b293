# microvm

Snapshot and image tooling for microVMs. The decisions are a library that Verus verifies; the
work on files, sockets and daemons is an ordinary program around it.

## Library (`src/`)

Snapshots of a microVM:

- `free_pages`: a bitmap of the pages that balloon devices have inflated.
- `zeroing`: which stretches of a memory file are overwritten with zeros, so that it compresses
  better.
- `vm_state`: what a snapshot holds.
- `persist`: creating a snapshot, as a step function from the outcome of one piece of work to the
  next piece.
- `restore`: restoring from a snapshot, as another such step function.
- `cpu_check`: comparing the CPU of the host with that of the snapshot.
- `guest_memory`: memory that a userfaultfd handler populates on demand.
- `page_faults`: how such a handler works off its events, batch by batch.

Docker images as deterministic file systems:

- `image`: layers and configuration of an image.
- `file_tree`: files by path, in lexicographic order.
- `extract`: sorting the members of a container export into a base tree and an additional one,
  and laying a tree out on disk.
- `entrypoint`: the script that starts what the image is made to run, with shell quoting that the
  shell undoes.
- `chunks`: files cut into padded chunks of one size, named by their SHA-256 digest, and the
  mapping from which the files are reconstructed byte for byte. The mapping is stored as a pair of
  lists in JSON: the blocks, each with its file's path, its number and its chunk's name, and the
  length of each file.
- `text`: searching, trimming, ordering and parsing text.

Functions whose names begin with `law_` state what holds of several functions together.

## Program (`app/`)

`main.rs` extracts an image:

```
image-extractor myapp:latest --base-image rowerdev/dev-base --output-dir ./extracted --chunk-size 512
```

The other modules drive snapshots and the page fault handler for programs that bring a
hypervisor.
